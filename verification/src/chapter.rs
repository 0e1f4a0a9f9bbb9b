use vstd::prelude::*;

verus! {

/// A link from a chapter to another catalog entity, such as its containing
/// work or a credited group, tagged with that entity's kind.
#[derive(Debug, Clone)]
pub struct Relationship {
    pub id: String,
    pub type_field: String,
}

/// The mutable display metadata of one chapter. All of it may change
/// upstream over time; none of it takes part in stable identity.
#[derive(Debug, Clone)]
pub struct ChapterAttributes {
    pub volume: Option<String>,
    pub chapter: Option<String>,
    pub title: Option<String>,
    pub external_url: Option<String>,
}

/// One unit of work to be archived, as fetched from the upstream catalog.
/// Immutable for the duration of one sync pass.
#[derive(Debug, Clone)]
pub struct Chapter {
    pub id: String,
    pub attributes: ChapterAttributes,
    pub relationships: Vec<Relationship>,
}

} // verus!
