//! The registries that references in game data are checked against.
use vstd::prelude::*;
use crate::auditor::json::JsonObject;
use crate::text::same_text;

verus! {

/// The known buildings, technologies, factions, weapons and abilities, each
/// registry keyed by identifier.
#[derive(Debug)]
pub struct Registries {
    pub buildings: JsonObject,
    pub technology: JsonObject,
    pub factions: JsonObject,
    pub weapons: JsonObject,
    pub abilities: JsonObject,
}

/// Whether a name names one of the registries.
pub open spec fn names_registry(name: Seq<char>) -> bool {
    name == "buildings"@ || name == "technology"@ || name == "factions"@ || name == "weapons"@
        || name == "abilities"@
}

/// The registries after replacing the one of the named kind; unchanged
/// where the name names none.
pub open spec fn registries_loaded(registries: Registries, name: Seq<char>, data: JsonObject) -> Registries {
    if name == "buildings"@ {
        Registries { buildings: data, ..registries }
    } else if name == "technology"@ {
        Registries { technology: data, ..registries }
    } else if name == "factions"@ {
        Registries { factions: data, ..registries }
    } else if name == "weapons"@ {
        Registries { weapons: data, ..registries }
    } else if name == "abilities"@ {
        Registries { abilities: data, ..registries }
    } else {
        registries
    }
}

impl Registries {
    /// Empty registries.
    pub fn new() -> (registries: Self)
        ensures
            forall|key: Seq<char>|
                !registries.buildings.has(key) && !registries.technology.has(key)
                    && !registries.factions.has(key) && !registries.weapons.has(key)
                    && !registries.abilities.has(key),
    {
        Registries {
            buildings: JsonObject::new(),
            technology: JsonObject::new(),
            factions: JsonObject::new(),
            weapons: JsonObject::new(),
            abilities: JsonObject::new(),
        }
    }

    /// Replaces the registry of the named kind. Returns whether the name
    /// names a registry; where it does not, nothing changes.
    pub fn load(&mut self, registry_type: &str, data: JsonObject) -> (known: bool)
        ensures
            known == names_registry(registry_type@),
            *final(self) == registries_loaded(*old(self), registry_type@, data),
    {
        if same_text(registry_type, "buildings") {
            self.buildings = data;
            true
        } else if same_text(registry_type, "technology") {
            self.technology = data;
            true
        } else if same_text(registry_type, "factions") {
            self.factions = data;
            true
        } else if same_text(registry_type, "weapons") {
            self.weapons = data;
            true
        } else if same_text(registry_type, "abilities") {
            self.abilities = data;
            true
        } else {
            false
        }
    }
}

} // verus!
