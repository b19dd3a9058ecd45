//! The records that the service sends and the client shows.
use vstd::prelude::*;
use crate::json::JsonValue;

verus! {

pub struct Space {
    pub id: String,
    pub title: String,
    pub icon: Option<JsonValue>,
}

pub struct SpacesResponse {
    pub spaces: Vec<Space>,
}

pub struct UserInfo {
    pub id: String,
    pub email: String,
    pub roles: Vec<UserRole>,
}

pub struct UserRole {
    pub name: String,
    pub config: JsonValue,
}

pub struct SearchResult {
    pub id: String,
    pub structure_id: String,
    pub title: String,
    pub snippet: Option<String>,
}

pub struct SearchResponse {
    pub results: Vec<SearchResult>,
}

pub struct LabelOption {
    pub id: String,
    pub text: String,
    pub color: String,
}

pub struct RawPropertyDefinition {
    pub id: String,
    pub data_type: String,
    pub name: Option<ValWrapper>,
    pub description: Option<ValWrapper>,
    pub icon: Option<JsonValue>,
    pub read_only: bool,
    pub prop_type: String,
    pub is_array: Option<bool>,
    pub allowed_structures: Option<Vec<String>>,
    pub set: Option<Vec<LabelOption>>,
    pub mode: Option<String>,
    pub constraints: Option<JsonValue>,
}

pub struct ValWrapper {
    pub val: String,
}

pub struct StructureInfo {
    pub id: String,
    pub title: String,
    pub plural_name: String,
    pub icon: Option<JsonValue>,
    pub properties: Vec<StructureProperty>,
}

pub struct StructureProperty {
    pub id: String,
    pub name: String,
    pub data_type: String,
    pub prop_type: String,
    pub is_array: Option<bool>,
    pub options: Option<Vec<LabelOption>>,
    pub allowed_structures: Option<Vec<String>>,
}

/// A piece of content, with every member it came with.
pub struct Component {
    pub id: String,
    pub comp_type: String,
    pub structure_id: String,
    pub properties: JsonValue,
    pub data: JsonValue,
    pub databases: Option<Vec<JsonValue>>,
    pub created_at: Option<String>,
    pub last_updated: Option<String>,
    pub delete_requested: Option<bool>,
    pub loading_state: Option<String>,
    pub policies: Option<Vec<JsonValue>>,
    pub link_nodes: Option<Vec<JsonValue>>,
    pub local: Option<JsonValue>,
    /// The members not named above, in order.
    pub extra: Vec<(String, JsonValue)>,
}

pub struct ContentResponse {
    pub components: Option<Vec<Component>>,
}

pub struct SpaceContentElement {
    pub id: String,
    pub last_updated: String,
}

pub struct SpaceContentResponse {
    pub elements: Option<Vec<SpaceContentElement>>,
}

pub struct SyncResponse {
    pub component_return_objects: Option<Vec<SyncReturnObject>>,
}

pub struct SyncReturnObject {
    pub id: String,
    pub status: String,
}

/// An object as the client shows it.
pub struct FormattedObject {
    pub id: String,
    pub obj_type: String,
    pub type_title: Option<String>,
    pub title: String,
    pub description: Option<String>,
    pub tags: Option<Vec<String>>,
    pub created_at: String,
    pub last_updated: String,
    /// Readable property values by property name.
    pub properties: Vec<(String, JsonValue)>,
    pub body: String,
}

pub struct SpaceObjectsSummary {
    pub elements: Vec<SpaceObjectElement>,
    /// How many objects there are of each type name, in the order the names were first met.
    pub summary: Vec<(String, usize)>,
    pub total: usize,
}

pub struct SpaceObjectElement {
    pub id: String,
    pub title: String,
    pub last_updated: String,
    pub structure_id: String,
    pub type_title: String,
}

pub struct DuplicateResponse {
    pub id: String,
}

pub struct SaveWeblinkResult {
    pub space_id: String,
    pub id: String,
    pub structure_id: String,
    pub title: String,
    pub description: String,
    pub tags: Vec<String>,
}

} // verus!
