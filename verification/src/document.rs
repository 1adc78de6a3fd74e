//! The structured map document: the record as it is read and written, and
//! its mapping to and from `MapData`.
//!
//! A record holds `None` for every optional field that the document omits.
//! Loading fills in the defaults, checks the extents and fits the elevation
//! buffer to the grid; saving writes every field out.

use crate::error::{invalid_map_size, outcome_view, MapError, MapErrorModel};
use crate::map_data::{
    blank_map, blank_model, fitted, pin_views, text_view, theater_name, tile_count_of, MapData,
    MapModel, MapPin, PinModel, Theater,
};
use crate::text::{lowered, matches_word, to_chars};
use vstd::prelude::*;
use vstd::string::StringExecFns;

verus! {

/// One pin as the document stores it.
#[derive(Debug, Clone, PartialEq, Eq)]
pub struct PinRecord {
    pub x: i32,
    pub y: i32,
    pub kind: Option<String>,
    pub owner: Option<String>,
}

/// The record of a structured document.
#[derive(Debug, Clone, PartialEq, Eq)]
pub struct MprDocument {
    pub theater: Option<String>,
    pub width: i32,
    pub height: i32,
    pub local_origin_x: Option<i32>,
    pub local_origin_y: Option<i32>,
    pub elevations: Option<Vec<i32>>,
    pub waypoints: Option<Vec<(i32, i32)>>,
    pub num_starting_points: Option<usize>,
    pub units: Option<Vec<PinRecord>>,
    pub structures: Option<Vec<PinRecord>>,
}

/// What a `PinRecord` holds.
pub struct PinRecordModel {
    pub x: i32,
    pub y: i32,
    pub kind: Option<Seq<char>>,
    pub owner: Option<Seq<char>>,
}

/// What an `MprDocument` holds.
pub struct DocumentModel {
    pub theater: Option<Seq<char>>,
    pub width: i32,
    pub height: i32,
    pub local_origin_x: Option<i32>,
    pub local_origin_y: Option<i32>,
    pub elevations: Option<Seq<i32>>,
    pub waypoints: Option<Seq<(i32, i32)>>,
    pub num_starting_points: Option<usize>,
    pub units: Option<Seq<PinRecordModel>>,
    pub structures: Option<Seq<PinRecordModel>>,
}

impl View for PinRecord {
    type V = PinRecordModel;

    open spec fn view(&self) -> PinRecordModel {
        PinRecordModel {
            x: self.x,
            y: self.y,
            kind: text_view(self.kind),
            owner: text_view(self.owner),
        }
    }
}

/// What a list of pin records holds, record by record.
pub open spec fn record_views(records: Seq<PinRecord>) -> Seq<PinRecordModel> {
    Seq::new(records.len(), |i: int| records[i]@)
}

/// What an optional list of pin records holds.
pub open spec fn record_list_view(list: Option<Vec<PinRecord>>) -> Option<Seq<PinRecordModel>> {
    match list {
        Some(records) => Some(record_views(records@)),
        None => None,
    }
}

/// What an optional list holds.
pub open spec fn list_view<T>(list: Option<Vec<T>>) -> Option<Seq<T>> {
    match list {
        Some(items) => Some(items@),
        None => None,
    }
}

impl View for MprDocument {
    type V = DocumentModel;

    open spec fn view(&self) -> DocumentModel {
        DocumentModel {
            theater: text_view(self.theater),
            width: self.width,
            height: self.height,
            local_origin_x: self.local_origin_x,
            local_origin_y: self.local_origin_y,
            elevations: list_view(self.elevations),
            waypoints: list_view(self.waypoints),
            num_starting_points: self.num_starting_points,
            units: record_list_view(self.units),
            structures: record_list_view(self.structures),
        }
    }
}

/// The theater that a stored name stands for: the case of ASCII letters does
/// not count, and a name that is none of the six known ones is `Unknown`.
pub open spec fn stored_theater(name: Seq<char>) -> Theater {
    let n = lowered(name);
    if n == "temperate"@ {
        Theater::Temperate
    } else if n == "snow"@ {
        Theater::Snow
    } else if n == "urban"@ {
        Theater::Urban
    } else if n == "newurban"@ {
        Theater::NewUrban
    } else if n == "desert"@ {
        Theater::Desert
    } else if n == "lunar"@ {
        Theater::Lunar
    } else {
        Theater::Unknown
    }
}

/// The pin of a record: a kind that is left out is the empty text.
pub open spec fn record_pin(r: PinRecordModel) -> PinModel {
    PinModel {
        x: r.x,
        y: r.y,
        kind: match r.kind {
            Some(k) => k,
            None => Seq::empty(),
        },
        owner: r.owner,
    }
}

/// The pins of a list of records; a list that is left out is empty.
pub open spec fn record_pins(list: Option<Seq<PinRecordModel>>) -> Seq<PinModel> {
    match list {
        Some(records) => Seq::new(records.len(), |i: int| record_pin(records[i])),
        None => Seq::empty(),
    }
}

/// The number, or 0 where there is none.
pub open spec fn or_zero(v: Option<i32>) -> i32 {
    match v {
        Some(n) => n,
        None => 0,
    }
}

/// The list, or the empty list where there is none.
pub open spec fn or_empty<T>(list: Option<Seq<T>>) -> Seq<T> {
    match list {
        Some(items) => items,
        None => Seq::empty(),
    }
}

/// The map that a record stands for: omitted fields take their defaults
/// (temperate theater, origin 0, no waypoints, pins or starting points), and
/// the elevation buffer is cut or zero-padded to one entry per tile.
pub open spec fn document_map(doc: DocumentModel) -> MapModel {
    MapModel {
        theater: match doc.theater {
            Some(name) => stored_theater(name),
            None => Theater::Temperate,
        },
        width: doc.width,
        height: doc.height,
        local_origin_x: or_zero(doc.local_origin_x),
        local_origin_y: or_zero(doc.local_origin_y),
        elevations: fitted(or_empty(doc.elevations), tile_count_of(doc.width, doc.height)),
        waypoints: or_empty(doc.waypoints),
        num_starting_points: match doc.num_starting_points {
            Some(n) => n,
            None => 0,
        },
        units: record_pins(doc.units),
        structures: record_pins(doc.structures),
    }
}

/// What loading the record of the document at `path` gives: the map, or
/// `InvalidSize` when the width or the height is not positive.
pub open spec fn mpr_outcome(path: Seq<char>, doc: DocumentModel) -> Result<
    MapModel,
    MapErrorModel,
> {
    if doc.width <= 0 || doc.height <= 0 {
        Err(MapErrorModel::InvalidSize { path })
    } else {
        Ok(document_map(doc))
    }
}

/// The record of a pin: kind and owner are written as they are.
pub open spec fn pin_record(p: PinModel) -> PinRecordModel {
    PinRecordModel { x: p.x, y: p.y, kind: Some(p.kind), owner: p.owner }
}

/// The record that saving a map writes: every field is present.
pub open spec fn map_document(m: MapModel) -> DocumentModel {
    DocumentModel {
        theater: Some(theater_name(m.theater)),
        width: m.width,
        height: m.height,
        local_origin_x: Some(m.local_origin_x),
        local_origin_y: Some(m.local_origin_y),
        elevations: Some(m.elevations),
        waypoints: Some(m.waypoints),
        num_starting_points: Some(m.num_starting_points),
        units: Some(Seq::new(m.units.len(), |i: int| pin_record(m.units[i]))),
        structures: Some(Seq::new(m.structures.len(), |i: int| pin_record(m.structures[i]))),
    }
}

/// Reading back the stored name of a theater gives the theater.
pub proof fn lemma_stored_theater_name(t: Theater)
    ensures
        stored_theater(theater_name(t)) == t,
{
    reveal_strlit("temperate");
    reveal_strlit("snow");
    reveal_strlit("urban");
    reveal_strlit("newurban");
    reveal_strlit("desert");
    reveal_strlit("lunar");
    reveal_strlit("unknown");
    let s = theater_name(t);
    assert(lowered(s) =~= s);
    assert("temperate"@.len() == 9 && "snow"@.len() == 4 && "urban"@.len() == 5);
    assert("newurban"@.len() == 8 && "desert"@.len() == 6 && "lunar"@.len() == 5);
    assert("unknown"@.len() == 7);
    assert("urban"@[0] != "lunar"@[0]);
}

/// Saving a map and loading what was saved gives the map back, for every map
/// with positive extents whose elevation buffer has one entry per tile.
pub proof fn lemma_save_then_load(path: Seq<char>, m: MapModel)
    requires
        m.has_valid_size(),
        m.elevations_fit(),
    ensures
        mpr_outcome(path, map_document(m)) == Ok::<MapModel, MapErrorModel>(m),
{
    lemma_stored_theater_name(m.theater);
    let back = document_map(map_document(m));
    assert(back.elevations =~= m.elevations);
    assert(back.units =~= m.units);
    assert(back.structures =~= m.structures);
}

fn theater_from_stored(name: &str) -> (t: Theater)
    ensures
        t == stored_theater(name@),
{
    let chars = to_chars(name);
    let n = chars.as_slice();
    if matches_word(n, "temperate") {
        Theater::Temperate
    } else if matches_word(n, "snow") {
        Theater::Snow
    } else if matches_word(n, "urban") {
        Theater::Urban
    } else if matches_word(n, "newurban") {
        Theater::NewUrban
    } else if matches_word(n, "desert") {
        Theater::Desert
    } else if matches_word(n, "lunar") {
        Theater::Lunar
    } else {
        Theater::Unknown
    }
}

fn copy_text(s: &Option<String>) -> (out: Option<String>)
    ensures
        text_view(out) == text_view(*s),
{
    match s {
        Some(t) => Some(t.clone()),
        None => None,
    }
}

fn pins_from_records(list: &Option<Vec<PinRecord>>) -> (out: Vec<MapPin>)
    ensures
        pin_views(out@) == record_pins(record_list_view(*list)),
{
    let mut out: Vec<MapPin> = Vec::new();
    match list {
        Some(records) => {
            let mut i: usize = 0;
            while i < records.len()
                invariant
                    i <= records.len(),
                    out.len() == i,
                    forall|k: int| 0 <= k < i ==> (#[trigger] out@[k])@ == record_pin(records@[k]@),
                decreases records.len() - i,
            {
                let r = &records[i];
                let kind = match &r.kind {
                    Some(k) => k.clone(),
                    None => String::new(),
                };
                out.push(MapPin { x: r.x, y: r.y, kind, owner: copy_text(&r.owner) });
                i += 1;
            }
            assert(pin_views(out@) =~= record_pins(record_list_view(*list)));
        },
        None => {
            assert(pin_views(out@) =~= record_pins(record_list_view(*list)));
        },
    }
    out
}

fn records_from_pins(pins: &Vec<MapPin>) -> (out: Vec<PinRecord>)
    ensures
        record_views(out@) == Seq::new(pins@.len(), |i: int| pin_record(pins@[i]@)),
{
    let mut out: Vec<PinRecord> = Vec::new();
    let mut i: usize = 0;
    while i < pins.len()
        invariant
            i <= pins.len(),
            out.len() == i,
            forall|k: int| 0 <= k < i ==> (#[trigger] out@[k])@ == pin_record(pins@[k]@),
        decreases pins.len() - i,
    {
        let p = &pins[i];
        out.push(
            PinRecord { x: p.x, y: p.y, kind: Some(p.kind.clone()), owner: copy_text(&p.owner) },
        );
        i += 1;
    }
    assert(record_views(out@) =~= Seq::new(pins@.len(), |i: int| pin_record(pins@[i]@)));
    out
}

fn copy_list<T: Copy>(items: &Vec<T>) -> (out: Vec<T>)
    ensures
        out@ == items@,
{
    let mut out: Vec<T> = Vec::new();
    let mut i: usize = 0;
    while i < items.len()
        invariant
            i <= items.len(),
            out@ == items@.subrange(0, i as int),
        decreases items.len() - i,
    {
        out.push(items[i]);
        i += 1;
    }
    assert(items@.subrange(0, i as int) =~= items@);
    out
}

fn copy_or_empty<T: Copy>(list: &Option<Vec<T>>) -> (out: Vec<T>)
    ensures
        out@ == or_empty(list_view(*list)),
{
    match list {
        Some(items) => copy_list(items),
        None => Vec::new(),
    }
}

/// Loads the record `doc` of the structured document at `path`.
///
/// Fails with `InvalidSize` exactly when the width or the height is not
/// positive.
pub fn parse_mpr(path: &str, doc: &MprDocument) -> (r: Result<MapData, MapError>)
    ensures
        outcome_view(r) == mpr_outcome(path@, doc@),
        r matches Ok(map) ==> map@.has_valid_size() && map@.elevations_fit(),
{
    if doc.width <= 0 || doc.height <= 0 {
        return Err(invalid_map_size(path));
    }
    let theater = match &doc.theater {
        Some(name) => theater_from_stored(name.as_str()),
        None => Theater::Temperate,
    };
    let mut map = MapData {
        theater,
        width: doc.width,
        height: doc.height,
        local_origin_x: match doc.local_origin_x {
            Some(n) => n,
            None => 0,
        },
        local_origin_y: match doc.local_origin_y {
            Some(n) => n,
            None => 0,
        },
        elevations: copy_or_empty(&doc.elevations),
        waypoints: copy_or_empty(&doc.waypoints),
        num_starting_points: match doc.num_starting_points {
            Some(n) => n,
            None => 0,
        },
        units: pins_from_records(&doc.units),
        structures: pins_from_records(&doc.structures),
    };
    map.ensure_elevations();
    Ok(map)
}

/// The record under which `map` is saved.
pub fn document_of(map: &MapData) -> (doc: MprDocument)
    ensures
        doc@ == map_document(map@),
{
    let doc = MprDocument {
        theater: Some(String::from_str(map.theater.name())),
        width: map.width,
        height: map.height,
        local_origin_x: Some(map.local_origin_x),
        local_origin_y: Some(map.local_origin_y),
        elevations: Some(copy_list(&map.elevations)),
        waypoints: Some(copy_list(&map.waypoints)),
        num_starting_points: Some(map.num_starting_points),
        units: Some(records_from_pins(&map.units)),
        structures: Some(records_from_pins(&map.structures)),
    };
    assert(doc@.units == map_document(map@).units) by {
        assert(record_views(doc.units->0@) =~= map_document(map@).units->0);
    }
    assert(doc@.structures == map_document(map@).structures) by {
        assert(record_views(doc.structures->0@) =~= map_document(map@).structures->0);
    }
    doc
}

/// The record of a new map: blank, 64 by 64 tiles.
pub fn new_map_document() -> (doc: MprDocument)
    ensures
        doc@ == map_document(blank_model(64, 64)),
{
    document_of(&blank_map(64, 64))
}

/// The map that a new project starts from: the bundled template where it
/// loads, and a blank map of 64 by 64 tiles where there is none or it does not.
pub open spec fn template_model(template: Option<DocumentModel>) -> MapModel {
    match template {
        Some(doc) => if doc.width > 0 && doc.height > 0 {
            document_map(doc)
        } else {
            blank_model(64, 64)
        },
        None => blank_model(64, 64),
    }
}

/// The map that a new project starts from, given the record of the
/// bundled template if it could be decoded.
pub fn default_map_template(template: Option<&MprDocument>) -> (map: MapData)
    ensures
        map@ == template_model(
            match template {
                Some(doc) => Some(doc@),
                None => None,
            },
        ),
        map@.has_valid_size(),
        map@.elevations_fit(),
{
    match template {
        Some(doc) => match parse_mpr("", doc) {
            Ok(map) => map,
            Err(_) => blank_map(64, 64),
        },
        None => blank_map(64, 64),
    }
}

} // verus!
