//! The validation rules: which fields an entity must have, which types they
//! must be of, and which references must resolve.
use vstd::prelude::*;
use vstd::string::StringExecFns;
use std::sync::Arc;
use crate::auditor::json::{
    value_as_array, value_as_text, value_get, value_is_f64, value_is_u64, JsonValue,
};
use crate::auditor::registry::Registries;
use crate::auditor::types::{
    finding, EntityType, ValidationCategory, ValidationResult, ValidationResultView,
    ValidationSeverity,
};
use crate::text::{join_texts, joined, same_text, text_views};

verus! {

/// An entity under validation, with what it is validated against.
#[derive(Debug)]
pub struct ValidationContext {
    pub entity_id: String,
    pub entity_type: EntityType,
    pub data: JsonValue,
    pub registries: Arc<Registries>,
    pub universe_id: String,
    pub turn: u64,
}

/// A rule that examines one entity and reports one finding. A finding of
/// severity `Info` means that the entity passed.
pub trait ValidationRule: Send + Sync {
    /// The finding of the rule on an entity.
    spec fn verdict(&self, context: &ValidationContext) -> ValidationResultView;

    /// The name of the rule.
    spec fn rule_name(&self) -> Seq<char>;

    /// The category of the rule's findings.
    spec fn rule_category(&self) -> ValidationCategory;

    /// The severity of a finding of the rule that is not a pass.
    spec fn rule_severity(&self) -> ValidationSeverity;

    /// Whether the rule is applied.
    spec fn enabled(&self) -> bool;

    fn validate(&self, context: &ValidationContext) -> (result: ValidationResult)
        ensures
            result@ == self.verdict(context),
    ;

    fn name(&self) -> (name: &str)
        ensures
            name@ == self.rule_name(),
    ;

    fn category(&self) -> (category: ValidationCategory)
        ensures
            category == self.rule_category(),
    ;

    fn severity(&self) -> (severity: ValidationSeverity)
        ensures
            severity == self.rule_severity(),
    ;

    fn is_enabled(&self) -> (enabled: bool)
        ensures
            enabled == self.enabled(),
    ;
}

/// The fields an entity of a type must have.
pub open spec fn required_fields(entity_type: EntityType) -> Seq<Seq<char>> {
    match entity_type {
        EntityType::Unit => seq!["name"@, "tier"@, "armor"@, "speed"@],
        EntityType::Building => seq!["name"@, "tier"@, "cost"@],
        EntityType::Technology => seq!["name"@, "tier"@, "cost"@],
        EntityType::Faction => seq!["name"@, "subfactions"@],
        _ => Seq::empty(),
    }
}

/// Position `i` is the first of the fields that the data lacks.
pub open spec fn is_first_missing(data: JsonValue, fields: Seq<Seq<char>>, i: int) -> bool {
    &&& 0 <= i < fields.len()
    &&& value_get(data, fields[i]).is_none()
    &&& forall|j: int| 0 <= j < i ==> value_get(data, #[trigger] fields[j]).is_some()
}

/// The first of the fields that the data lacks, if it lacks any.
pub open spec fn first_missing(data: JsonValue, fields: Seq<Seq<char>>) -> Option<Seq<char>> {
    if exists|i: int| is_first_missing(data, fields, i) {
        Some(fields[choose|i: int| is_first_missing(data, fields, i)])
    } else {
        None
    }
}

/// The finding of the field existence rule: critical for the first
/// required field that is missing, a pass where none is.
pub open spec fn field_existence_verdict(context: &ValidationContext) -> ValidationResultView {
    match first_missing(context.data, required_fields(context.entity_type)) {
        Some(field) => finding(
            ValidationCategory::FileStructure,
            ValidationSeverity::Critical,
            context.entity_id@,
            "Missing required field: "@ + field,
            "field_existence"@,
        ),
        None => finding(
            ValidationCategory::FileStructure,
            ValidationSeverity::Info,
            context.entity_id@,
            "All required fields present"@,
            "field_existence"@,
        ),
    }
}

/// The type violations of an entity's data: a `tier` that is not a
/// non-negative integer, a `cost` that is not a number.
pub open spec fn type_violations(data: JsonValue) -> Seq<Seq<char>> {
    let tier = match value_get(data, "tier"@) {
        Some(v) => if value_is_u64(v) {
            Seq::<Seq<char>>::empty()
        } else {
            seq!["Field 'tier' must be an integer"@]
        },
        None => Seq::<Seq<char>>::empty(),
    };
    let cost = match value_get(data, "cost"@) {
        Some(v) => if value_is_u64(v) || value_is_f64(v) {
            Seq::<Seq<char>>::empty()
        } else {
            seq!["Field 'cost' must be a number"@]
        },
        None => Seq::<Seq<char>>::empty(),
    };
    tier + cost
}

/// The finding of the type validation rule: an error listing the type
/// violations, a pass where there are none.
pub open spec fn type_validation_verdict(context: &ValidationContext) -> ValidationResultView {
    let violations = type_violations(context.data);
    if violations.len() > 0 {
        finding(
            ValidationCategory::FileStructure,
            ValidationSeverity::Error,
            context.entity_id@,
            "Type violations: "@ + joined(violations, ", "@),
            "type_validation"@,
        )
    } else {
        finding(
            ValidationCategory::FileStructure,
            ValidationSeverity::Info,
            context.entity_id@,
            "Type validation passed"@,
            "type_validation"@,
        )
    }
}

/// The building an entity requires, where it names one that is neither
/// "None" nor registered.
pub open spec fn unknown_building(context: &ValidationContext) -> Option<Seq<char>> {
    match value_get(context.data, "required_building"@) {
        Some(v) => match value_as_text(v) {
            Some(name) => if name != "None"@ && !context.registries.buildings.has(name) {
                Some(name)
            } else {
                None
            },
            None => None,
        },
        None => None,
    }
}

/// Element `i` is the first text of the list that names no registered
/// technology.
pub open spec fn is_first_unknown_tech(items: Seq<JsonValue>, registries: Registries, i: int) -> bool {
    &&& 0 <= i < items.len()
    &&& names_unknown_tech(items[i], registries)
    &&& forall|j: int| 0 <= j < i ==> !names_unknown_tech(#[trigger] items[j], registries)
}

/// A value is a text that names no registered technology.
pub open spec fn names_unknown_tech(item: JsonValue, registries: Registries) -> bool {
    match value_as_text(item) {
        Some(name) => !registries.technology.has(name),
        None => false,
    }
}

/// The first technology an entity requires that is not registered.
pub open spec fn unknown_tech(context: &ValidationContext) -> Option<Seq<char>> {
    match value_get(context.data, "required_tech"@) {
        Some(v) => match value_as_array(v) {
            Some(items) => if exists|i: int| is_first_unknown_tech(items, *context.registries, i) {
                value_as_text(
                    items[choose|i: int| is_first_unknown_tech(items, *context.registries, i)],
                )
            } else {
                None
            },
            None => None,
        },
        None => None,
    }
}

/// The finding of the reference integrity rule: an error for an unknown
/// required building, else an error for the first unknown required
/// technology, else a pass.
pub open spec fn reference_integrity_verdict(context: &ValidationContext) -> ValidationResultView {
    match unknown_building(context) {
        Some(name) => finding(
            ValidationCategory::Units,
            ValidationSeverity::Error,
            context.entity_id@,
            "Invalid Building Reference: '"@ + name + "'"@,
            "reference_integrity"@,
        ),
        None => match unknown_tech(context) {
            Some(name) => finding(
                ValidationCategory::Units,
                ValidationSeverity::Error,
                context.entity_id@,
                "Invalid Tech Reference: '"@ + name + "'"@,
                "reference_integrity"@,
            ),
            None => finding(
                ValidationCategory::Units,
                ValidationSeverity::Info,
                context.entity_id@,
                "Reference integrity valid"@,
                "reference_integrity"@,
            ),
        },
    }
}

/// The names of the fields an entity of a type must have.
pub fn required_field_names(entity_type: EntityType) -> (names: Vec<&'static str>)
    ensures
        names@.len() == required_fields(entity_type).len(),
        forall|i: int| 0 <= i < names@.len() ==> (#[trigger] names@[i])@ == required_fields(entity_type)[i],
{
    let mut names: Vec<&'static str> = Vec::new();
    match entity_type {
        EntityType::Unit => {
            names.push("name");
            names.push("tier");
            names.push("armor");
            names.push("speed");
        },
        EntityType::Building => {
            names.push("name");
            names.push("tier");
            names.push("cost");
        },
        EntityType::Technology => {
            names.push("name");
            names.push("tier");
            names.push("cost");
        },
        EntityType::Faction => {
            names.push("name");
            names.push("subfactions");
        },
        _ => {},
    }
    names
}

/// Checks that an entity has the fields its type requires.
pub struct FieldExistenceRule;

impl ValidationRule for FieldExistenceRule {
    open spec fn verdict(&self, context: &ValidationContext) -> ValidationResultView {
        field_existence_verdict(context)
    }

    open spec fn rule_name(&self) -> Seq<char> {
        "field_existence"@
    }

    open spec fn rule_category(&self) -> ValidationCategory {
        ValidationCategory::FileStructure
    }

    open spec fn rule_severity(&self) -> ValidationSeverity {
        ValidationSeverity::Critical
    }

    open spec fn enabled(&self) -> bool {
        true
    }

    fn validate(&self, context: &ValidationContext) -> (result: ValidationResult) {
        let names = required_field_names(context.entity_type);
        let ghost fields = required_fields(context.entity_type);
        let mut i: usize = 0;
        while i < names.len()
            invariant
                i <= names@.len(),
                names@.len() == fields.len(),
                fields == required_fields(context.entity_type),
                forall|j: int| 0 <= j < names@.len() ==> (#[trigger] names@[j])@ == fields[j],
                forall|j: int| 0 <= j < i ==> value_get(context.data, #[trigger] fields[j]).is_some(),
            decreases names@.len() - i,
        {
            let field = names[i];
            assert(field@ == fields[i as int]);
            if context.data.get(field).is_none() {
                proof {
                    assert(is_first_missing(context.data, fields, i as int));
                    let c = choose|c: int| is_first_missing(context.data, fields, c);
                    if c < i {
                        assert(value_get(context.data, fields[c]).is_some());
                    } else if i < c {
                        assert(value_get(context.data, fields[i as int]).is_some());
                    }
                }
                let mut message = String::from_str("Missing required field: ");
                message.append(field);
                return ValidationResult::of(
                    self.category(),
                    self.severity(),
                    context.entity_id.as_str(),
                    message,
                    self.name(),
                );
            }
            i += 1;
        }
        proof {
            if exists|c: int| is_first_missing(context.data, fields, c) {
                let c = choose|c: int| is_first_missing(context.data, fields, c);
                assert(value_get(context.data, fields[c]).is_some());
            }
        }
        ValidationResult::of(
            self.category(),
            ValidationSeverity::Info,
            context.entity_id.as_str(),
            String::from_str("All required fields present"),
            self.name(),
        )
    }

    fn name(&self) -> (name: &str) {
        "field_existence"
    }

    fn category(&self) -> (category: ValidationCategory) {
        ValidationCategory::FileStructure
    }

    fn severity(&self) -> (severity: ValidationSeverity) {
        ValidationSeverity::Critical
    }

    fn is_enabled(&self) -> (enabled: bool) {
        true
    }
}

/// Checks that the fields of an entity are of the types their names call
/// for.
pub struct TypeValidationRule;

impl ValidationRule for TypeValidationRule {
    open spec fn verdict(&self, context: &ValidationContext) -> ValidationResultView {
        type_validation_verdict(context)
    }

    open spec fn rule_name(&self) -> Seq<char> {
        "type_validation"@
    }

    open spec fn rule_category(&self) -> ValidationCategory {
        ValidationCategory::FileStructure
    }

    open spec fn rule_severity(&self) -> ValidationSeverity {
        ValidationSeverity::Error
    }

    open spec fn enabled(&self) -> bool {
        true
    }

    fn validate(&self, context: &ValidationContext) -> (result: ValidationResult) {
        let mut violations: Vec<String> = Vec::new();
        if let Some(tier) = context.data.get("tier") {
            if !tier.is_u64() {
                violations.push(String::from_str("Field 'tier' must be an integer"));
            }
        }
        if let Some(cost) = context.data.get("cost") {
            if !cost.is_u64() && !cost.is_f64() {
                violations.push(String::from_str("Field 'cost' must be a number"));
            }
        }
        assert(text_views(violations@) =~= type_violations(context.data));
        if violations.len() > 0 {
            let mut message = String::from_str("Type violations: ");
            let listed = join_texts(&violations, ", ");
            message.append(listed.as_str());
            return ValidationResult::of(
                self.category(),
                self.severity(),
                context.entity_id.as_str(),
                message,
                self.name(),
            );
        }
        ValidationResult::of(
            self.category(),
            ValidationSeverity::Info,
            context.entity_id.as_str(),
            String::from_str("Type validation passed"),
            self.name(),
        )
    }

    fn name(&self) -> (name: &str) {
        "type_validation"
    }

    fn category(&self) -> (category: ValidationCategory) {
        ValidationCategory::FileStructure
    }

    fn severity(&self) -> (severity: ValidationSeverity) {
        ValidationSeverity::Error
    }

    fn is_enabled(&self) -> (enabled: bool) {
        true
    }
}

/// Checks that the buildings and technologies an entity requires are
/// registered.
pub struct ReferenceIntegrityRule;

impl ReferenceIntegrityRule {
    /// The first technology an entity requires that is not registered.
    fn find_unknown_tech<'a>(context: &'a ValidationContext) -> (found: Option<&'a str>)
        ensures
            match found {
                Some(name) => unknown_tech(context) == Some(name@),
                None => unknown_tech(context).is_none(),
            },
    {
        if let Some(tech_refs) = context.data.get("required_tech") {
            if let Some(items) = tech_refs.as_array() {
                let mut i: usize = 0;
                while i < items.len()
                    invariant
                        i <= items@.len(),
                        value_get(context.data, "required_tech"@) == Some(*tech_refs),
                        value_as_array(*tech_refs) == Some(items@),
                        forall|j: int|
                            0 <= j < i ==> !names_unknown_tech(
                                #[trigger] items@[j],
                                *context.registries,
                            ),
                    decreases items@.len() - i,
                {
                    if let Some(name) = items[i].as_str() {
                        if !context.registries.technology.contains_key(name) {
                            proof {
                                assert(is_first_unknown_tech(items@, *context.registries, i as int));
                                let c = choose|c: int|
                                    is_first_unknown_tech(items@, *context.registries, c);
                                if c < i {
                                    assert(!names_unknown_tech(items@[c], *context.registries));
                                } else if i < c {
                                    assert(!names_unknown_tech(
                                        items@[i as int],
                                        *context.registries,
                                    ));
                                }
                            }
                            return Some(name);
                        }
                    }
                    i += 1;
                }
                proof {
                    if exists|c: int| is_first_unknown_tech(items@, *context.registries, c) {
                        let c = choose|c: int| is_first_unknown_tech(items@, *context.registries, c);
                        assert(!names_unknown_tech(items@[c], *context.registries));
                    }
                }
            }
        }
        None
    }

    /// The building an entity requires, where it names one that is neither
    /// "None" nor registered.
    fn find_unknown_building<'a>(context: &'a ValidationContext) -> (found: Option<&'a str>)
        ensures
            match found {
                Some(name) => unknown_building(context) == Some(name@),
                None => unknown_building(context).is_none(),
            },
    {
        if let Some(building_ref) = context.data.get("required_building") {
            if let Some(name) = building_ref.as_str() {
                if !same_text(name, "None") && !context.registries.buildings.contains_key(name) {
                    return Some(name);
                }
            }
        }
        None
    }
}

impl ValidationRule for ReferenceIntegrityRule {
    open spec fn verdict(&self, context: &ValidationContext) -> ValidationResultView {
        reference_integrity_verdict(context)
    }

    open spec fn rule_name(&self) -> Seq<char> {
        "reference_integrity"@
    }

    open spec fn rule_category(&self) -> ValidationCategory {
        ValidationCategory::Units
    }

    open spec fn rule_severity(&self) -> ValidationSeverity {
        ValidationSeverity::Error
    }

    open spec fn enabled(&self) -> bool {
        true
    }

    fn validate(&self, context: &ValidationContext) -> (result: ValidationResult) {
        if let Some(name) = Self::find_unknown_building(context) {
            let mut message = String::from_str("Invalid Building Reference: '");
            message.append(name);
            message.append("'");
            return ValidationResult::of(
                self.category(),
                self.severity(),
                context.entity_id.as_str(),
                message,
                self.name(),
            );
        }
        if let Some(name) = Self::find_unknown_tech(context) {
            let mut message = String::from_str("Invalid Tech Reference: '");
            message.append(name);
            message.append("'");
            return ValidationResult::of(
                self.category(),
                self.severity(),
                context.entity_id.as_str(),
                message,
                self.name(),
            );
        }
        ValidationResult::of(
            self.category(),
            ValidationSeverity::Info,
            context.entity_id.as_str(),
            String::from_str("Reference integrity valid"),
            self.name(),
        )
    }

    fn name(&self) -> (name: &str) {
        "reference_integrity"
    }

    fn category(&self) -> (category: ValidationCategory) {
        ValidationCategory::Units
    }

    fn severity(&self) -> (severity: ValidationSeverity) {
        ValidationSeverity::Error
    }

    fn is_enabled(&self) -> (enabled: bool) {
        true
    }
}

} // verus!
