//! Loading a map by the format that its path names.
//!
//! A path that ends in `.mpr`, in any case of letters, names a structured
//! document; every other path names a legacy text.

use crate::document::{mpr_outcome, parse_mpr, DocumentModel, MprDocument};
use crate::error::{outcome_view, MapError, MapErrorModel};
use crate::legacy::{legacy_outcome, parse_legacy_ini_map};
use crate::map_data::{MapData, MapModel};
use crate::text::{ends_with_word, has_suffix, lowered, to_chars};
use vstd::prelude::*;
use vstd::string::StringExecFns;

verus! {

/// What was read from a map file.
#[derive(Debug, Clone, PartialEq, Eq)]
pub enum MapSource {
    /// The file could not be read, with the reason.
    Unreadable(String),
    /// The record of a structured document.
    Document(MprDocument),
    /// A structured document that could not be decoded, with the reason.
    Malformed(String),
    /// The text of a legacy map.
    Text(String),
}

/// What a `MapSource` holds.
pub enum SourceModel {
    Unreadable(Seq<char>),
    Document(DocumentModel),
    Malformed(Seq<char>),
    Text(Seq<char>),
}

impl View for MapSource {
    type V = SourceModel;

    open spec fn view(&self) -> SourceModel {
        match *self {
            MapSource::Unreadable(reason) => SourceModel::Unreadable(reason@),
            MapSource::Document(doc) => SourceModel::Document(doc@),
            MapSource::Malformed(reason) => SourceModel::Malformed(reason@),
            MapSource::Text(text) => SourceModel::Text(text@),
        }
    }
}

/// The path names a structured document.
pub open spec fn is_structured_path(path: Seq<char>) -> bool {
    has_suffix(lowered(path), ".mpr"@)
}

/// The path names a map of either format.
pub open spec fn is_map_path(path: Seq<char>) -> bool {
    has_suffix(lowered(path), ".map"@) || has_suffix(lowered(path), ".mpr"@)
}

/// Whether `path` names a structured document.
pub fn names_structured_document(path: &str) -> (b: bool)
    ensures
        b == is_structured_path(path@),
{
    let chars = to_chars(path);
    ends_with_word(chars.as_slice(), ".mpr")
}

/// Whether `path` names a map of either format.
pub fn names_map(path: &str) -> (b: bool)
    ensures
        b == is_map_path(path@),
{
    let chars = to_chars(path);
    ends_with_word(chars.as_slice(), ".map") || ends_with_word(chars.as_slice(), ".mpr")
}

/// What loading the document at `path` from `source` gives.
///
/// A file that could not be read is reported as such. A structured path
/// takes a record (or reports why there is none); any other path takes the
/// legacy text. Contents of the other format are refused with `WrongSource`.
pub open spec fn parse_outcome(path: Seq<char>, source: SourceModel) -> Result<
    MapModel,
    MapErrorModel,
> {
    if source is Unreadable {
        Err(MapErrorModel::Unreadable { path, reason: source->Unreadable_0 })
    } else if is_structured_path(path) {
        match source {
            SourceModel::Document(doc) => mpr_outcome(path, doc),
            SourceModel::Malformed(reason) => Err(MapErrorModel::InvalidDocument { path, reason }),
            _ => Err(MapErrorModel::WrongSource { path }),
        }
    } else {
        match source {
            SourceModel::Text(text) => legacy_outcome(path, text),
            _ => Err(MapErrorModel::WrongSource { path }),
        }
    }
}

/// Loads the map at `path` from what was read of it.
pub fn parse_map(path: &str, source: &MapSource) -> (r: Result<MapData, MapError>)
    ensures
        outcome_view(r) == parse_outcome(path@, source@),
        r matches Ok(map) ==> map@.has_valid_size(),
{
    if let MapSource::Unreadable(reason) = source {
        return Err(MapError::Unreadable { path: String::from_str(path), reason: reason.clone() });
    }
    if names_structured_document(path) {
        match source {
            MapSource::Document(doc) => parse_mpr(path, doc),
            MapSource::Malformed(reason) => Err(
                MapError::InvalidDocument { path: String::from_str(path), reason: reason.clone() },
            ),
            _ => Err(MapError::WrongSource { path: String::from_str(path) }),
        }
    } else {
        match source {
            MapSource::Text(text) => parse_legacy_ini_map(path, text.as_str()),
            _ => Err(MapError::WrongSource { path: String::from_str(path) }),
        }
    }
}

/// Loading the same path from the same contents twice gives the same
/// outcome: a load depends on nothing but the path and what was read.
pub proof fn lemma_reload_is_identical(
    path: Seq<char>,
    source: SourceModel,
    first: Result<MapData, MapError>,
    second: Result<MapData, MapError>,
)
    requires
        outcome_view(first) == parse_outcome(path, source),
        outcome_view(second) == parse_outcome(path, source),
    ensures
        outcome_view(first) == outcome_view(second),
{
}

} // verus!
