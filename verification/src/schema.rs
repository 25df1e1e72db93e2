//! The schema data model: namespaces, entity types, actions, and the
//! closed set of schema types. A type's `required` flag is tri-state:
//! absent (`None`) means required, and absence survives round trips.
use vstd::prelude::*;

verus! {

/// A schema type. Every variant carries an optional `required` flag whose
/// absence means `true`.
#[derive(Debug)]
pub enum TypeJson {
    Long { required: Option<bool> },
    String { required: Option<bool> },
    Boolean { required: Option<bool> },
    SetOf { element: Box<TypeJson>, required: Option<bool> },
    Entity { name: String, required: Option<bool> },
    Record { attributes: Vec<(String, TypeJson)>, required: Option<bool> },
    Extension { name: String, required: Option<bool> },
    EntityOrCommon { name: String, required: Option<bool> },
}

/// An entity type declaration: its parent types, shape, tag type, and
/// annotations.
#[derive(Debug)]
pub struct EntityType {
    pub member_of_types: Option<Vec<String>>,
    pub shape: Option<TypeJson>,
    pub tags: Option<TypeJson>,
    pub annotations: Vec<(String, String)>,
}

/// What an action applies to: allowed principal and resource types and an
/// optional context type.
#[derive(Debug)]
pub struct AppliesTo {
    pub principal_types: Vec<String>,
    pub resource_types: Vec<String>,
    pub context: Option<TypeJson>,
}

/// An action declaration.
#[derive(Debug)]
pub struct Action {
    pub member_of: Option<Vec<String>>,
    pub applies_to: Option<AppliesTo>,
    pub annotations: Vec<(String, String)>,
}

/// One namespace of a schema: entity types, actions, and common types.
#[derive(Debug)]
pub struct Namespace {
    pub entity_types: Vec<(String, EntityType)>,
    pub actions: Vec<(String, Action)>,
    pub common_types: Option<Vec<(String, TypeJson)>>,
}

/// A schema: a mapping from namespace name to namespace.
#[derive(Debug)]
pub struct Schema(pub Vec<(String, Namespace)>);

} // verus!
