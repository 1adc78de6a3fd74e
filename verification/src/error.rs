//! Why a map document could not be loaded.

use crate::map_data::{MapData, MapModel};
use vstd::prelude::*;
use vstd::string::StringExecFns;

verus! {

/// Why a map could not be loaded. Each error names the document's path.
#[derive(Debug, Clone, PartialEq, Eq)]
pub enum MapError {
    /// The file could not be read.
    Unreadable { path: String, reason: String },
    /// The resolved width or height is not positive.
    InvalidSize { path: String },
    /// The structured document could not be decoded.
    InvalidDocument { path: String, reason: String },
    /// The path asks for one format and the contents handed in are of the other.
    WrongSource { path: String },
}

/// What a `MapError` holds.
pub enum MapErrorModel {
    Unreadable { path: Seq<char>, reason: Seq<char> },
    InvalidSize { path: Seq<char> },
    InvalidDocument { path: Seq<char>, reason: Seq<char> },
    WrongSource { path: Seq<char> },
}

impl View for MapError {
    type V = MapErrorModel;

    open spec fn view(&self) -> MapErrorModel {
        match *self {
            MapError::Unreadable { path, reason } => MapErrorModel::Unreadable {
                path: path@,
                reason: reason@,
            },
            MapError::InvalidSize { path } => MapErrorModel::InvalidSize { path: path@ },
            MapError::InvalidDocument { path, reason } => MapErrorModel::InvalidDocument {
                path: path@,
                reason: reason@,
            },
            MapError::WrongSource { path } => MapErrorModel::WrongSource { path: path@ },
        }
    }
}

/// The text shown for an error.
pub open spec fn message_of(e: MapErrorModel) -> Seq<char> {
    match e {
        MapErrorModel::Unreadable { path, reason } => "Cannot read "@ + path + ": "@ + reason,
        MapErrorModel::InvalidSize { path } => "Invalid map size in "@ + path,
        MapErrorModel::InvalidDocument { path, reason } => "Invalid .mpr "@ + path + ": "@ + reason,
        MapErrorModel::WrongSource { path } => "Contents do not fit the format of "@ + path,
    }
}

impl MapError {
    /// The text shown for the error.
    pub fn message(&self) -> (out: String)
        ensures
            out@ == message_of(self@),
    {
        match self {
            MapError::Unreadable { path, reason } => {
                let mut out = String::from_str("Cannot read ");
                out.append(path.as_str());
                out.append(": ");
                out.append(reason.as_str());
                out
            },
            MapError::InvalidSize { path } => {
                let mut out = String::from_str("Invalid map size in ");
                out.append(path.as_str());
                out
            },
            MapError::InvalidDocument { path, reason } => {
                let mut out = String::from_str("Invalid .mpr ");
                out.append(path.as_str());
                out.append(": ");
                out.append(reason.as_str());
                out
            },
            MapError::WrongSource { path } => {
                let mut out = String::from_str("Contents do not fit the format of ");
                out.append(path.as_str());
                out
            },
        }
    }
}

/// What the result of a load holds: the map's contents or the error's.
pub open spec fn outcome_view(r: Result<MapData, MapError>) -> Result<MapModel, MapErrorModel> {
    match r {
        Ok(map) => Ok(map@),
        Err(e) => Err(e@),
    }
}

/// The error of a map whose resolved extents are not both positive.
pub fn invalid_map_size(path: &str) -> (e: MapError)
    ensures
        e@ == (MapErrorModel::InvalidSize { path: path@ }),
{
    MapError::InvalidSize { path: String::from_str(path) }
}

} // verus!
