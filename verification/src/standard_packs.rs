//! The ordinary Pack installed into every newly initialized repository.
use vstd::prelude::*;
use vstd::string::*;
use crate::commands::pack_commands::{pack_valid, validate_pack};
use crate::pack::{Pack, PackManifest, RecordDefinitionFile, SCHEMA_VERSION};
use crate::record::{RecordDefinition, RecordDefinitionModel, ScalarRecordDefinition, ValueType};

verus! {

pub const BASIC_PACK_ID: &'static str = "basic";

/// A scalar definition with the given id, name and value type, and no
/// description or unit.
pub open spec fn plain_scalar(d: RecordDefinitionModel, id: Seq<char>, name: Seq<char>, value_type: ValueType) -> bool {
    match d {
        RecordDefinitionModel::Scalar(s) => s.id@ == id && s.name@ == name && s.description is None
            && s.value_type == value_type && s.unit is None,
        _ => false,
    }
}

/// The basic Pack's definitions: the birth date and the nickname.
pub open spec fn basic_definitions(defs: Seq<RecordDefinitionModel>) -> bool {
    &&& defs.len() == 2
    &&& plain_scalar(defs[0], "identity.birth_date"@, "Birth date"@, ValueType::Date)
    &&& plain_scalar(defs[1], "identity.nickname"@, "Nickname"@, ValueType::String)
}

/// The basic Pack: it has no privileges of its own; consumers merely know its
/// two identity RecordDefinition ids.
pub fn basic_pack() -> (r: Pack)
    ensures
        r@.manifest.id@ == "basic"@,
        r@.manifest.name@ == "Basic"@,
        r@.manifest.schema_version == SCHEMA_VERSION,
        r@.manifest.description is None,
        r@.manifest.author is None,
        r@.manifest.parent_pack_id is None,
        r@.manifest.tags.len() == 0,
        r@.record_definitions is Some,
        basic_definitions(r@.record_definitions->0),
        r@.dimensions is None,
        r@.achievements is None,
        r@.skills is None,
        r@.derived_values is None,
        r@.assets.len() == 0,
{
    let mut definitions: Vec<RecordDefinition> = Vec::new();
    definitions.push(RecordDefinition::Scalar(ScalarRecordDefinition {
        id: String::from_str("identity.birth_date"),
        name: String::from_str("Birth date"),
        description: None,
        value_type: ValueType::Date,
        unit: None,
    }));
    definitions.push(RecordDefinition::Scalar(ScalarRecordDefinition {
        id: String::from_str("identity.nickname"),
        name: String::from_str("Nickname"),
        description: None,
        value_type: ValueType::String,
        unit: None,
    }));
    Pack {
        manifest: PackManifest {
            schema_version: SCHEMA_VERSION,
            id: String::from_str("basic"),
            name: String::from_str("Basic"),
            description: None,
            author: None,
            parent_pack_id: None,
            tags: Vec::new(),
        },
        record_definitions: Some(RecordDefinitionFile { definitions }),
        dimensions: None,
        achievements: None,
        skills: None,
        derived_values: None,
        assets: Vec::new(),
    }
}

} // verus!
