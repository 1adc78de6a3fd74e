//! Decoder of the legacy line-oriented map text.
//!
//! The text is read line by line. A line that is empty or starts with `;` is
//! skipped, `[Name]` opens a section, and `key=value` is read according to
//! the section it stands in. Section names and keys are matched without
//! regard to the case of ASCII letters.

use crate::error::{invalid_map_size, outcome_view, MapError, MapErrorModel};
use crate::map_data::{pin_views, theater_of, MapData, MapModel, MapPin, PinModel, Theater};
use crate::text::{
    all_digits, contains_char, cut_at_first, fields, from_chars, has_prefix, i32_of, is_all_digits,
    lowered, matches_word, parse_i32, parse_usize, slice_views, split, split_once,
    starts_with_word, to_chars, trim, trimmed, usize_of,
};
use vstd::prelude::*;
use vstd::string::StringExecFns;

verus! {

/// What has been gathered from the lines read so far.
pub struct ScanModel {
    /// Name of the section that the next entry falls under, as written.
    pub section: Seq<char>,
    pub theater: Option<Theater>,
    /// Width and height from `Map.Size`.
    pub size: Option<(i32, i32)>,
    /// `X, Y, W, H` from `Map.LocalSize`.
    pub local: Option<(i32, i32, i32, i32)>,
    /// Width and height from `Header.Width` and `Header.Height`.
    pub header_size: Option<(i32, i32)>,
    /// Origin from `Header.StartX` and `Header.StartY`.
    pub start: Option<(i32, i32)>,
    pub starting_points: usize,
    pub waypoints: Seq<(i32, i32)>,
    pub units: Seq<PinModel>,
    pub structures: Seq<PinModel>,
}

/// The state before the first line.
pub open spec fn empty_scan() -> ScanModel {
    ScanModel {
        section: Seq::empty(),
        theater: None,
        size: None,
        local: None,
        header_size: None,
        start: None,
        starting_points: 0,
        waypoints: Seq::empty(),
        units: Seq::empty(),
        structures: Seq::empty(),
    }
}

/// The integers among `parts`, in order: each part is trimmed, and a part
/// that does not write an `i32` is passed over.
pub open spec fn numbers_in(parts: Seq<Seq<char>>) -> Seq<i32>
    decreases parts.len(),
{
    if parts.len() == 0 {
        Seq::empty()
    } else {
        let before = numbers_in(parts.drop_last());
        match i32_of(trimmed(parts.last())) {
            Some(n) => before.push(n),
            None => before,
        }
    }
}

/// The integers of a comma-separated value.
pub open spec fn numbers_of(val: Seq<char>) -> Seq<i32> {
    numbers_in(fields(val, ','))
}

/// The pin that a comma-separated object line gives: the last two integers
/// of the line are its position, the first field its owner, the second its
/// kind. A line with fewer than two integers gives none.
pub open spec fn pin_of(csv: Seq<char>) -> Option<PinModel> {
    let parts = fields(csv, ',');
    let nums = numbers_in(parts);
    if nums.len() < 2 {
        None
    } else {
        Some(
            PinModel {
                x: nums[nums.len() - 2],
                y: nums[nums.len() - 1],
                kind: if parts.len() > 1 {
                    trimmed(parts[1])
                } else {
                    "Obj"@
                },
                owner: Some(trimmed(parts[0])),
            },
        )
    }
}

/// The `i32` that `val` writes, or 0.
pub open spec fn number_or_zero(val: Seq<char>) -> i32 {
    match i32_of(val) {
        Some(n) => n,
        None => 0,
    }
}

/// `st` with the waypoint `x,y` of `val` appended, if `val` holds exactly two integers.
pub open spec fn with_waypoint(st: ScanModel, val: Seq<char>) -> ScanModel {
    let nums = numbers_of(val);
    if nums.len() == 2 {
        ScanModel { waypoints: st.waypoints.push((nums[0], nums[1])), ..st }
    } else {
        st
    }
}

/// An entry of `[Map]`; `key` is already in lower case.
pub open spec fn scan_map_entry(st: ScanModel, key: Seq<char>, val: Seq<char>) -> ScanModel {
    if key == "theater"@ {
        ScanModel { theater: Some(theater_of(val)), ..st }
    } else if key == "size"@ {
        let nums = numbers_of(val);
        if nums.len() == 2 {
            ScanModel { size: Some((nums[0], nums[1])), ..st }
        } else if nums.len() == 4 {
            ScanModel { size: Some((nums[2], nums[3])), ..st }
        } else {
            st
        }
    } else if key == "localsize"@ {
        let nums = numbers_of(val);
        if nums.len() == 4 {
            ScanModel { local: Some((nums[0], nums[1], nums[2], nums[3])), ..st }
        } else {
            st
        }
    } else {
        st
    }
}

/// The first number of the pair, or 0 where there is no pair.
pub open spec fn first_or_zero(pair: Option<(i32, i32)>) -> i32 {
    match pair {
        Some((a, _)) => a,
        None => 0,
    }
}

/// The second number of the pair, or 0 where there is no pair.
pub open spec fn second_or_zero(pair: Option<(i32, i32)>) -> i32 {
    match pair {
        Some((_, b)) => b,
        None => 0,
    }
}

/// An entry of `[Header]`; `key` is already in lower case.
pub open spec fn scan_header_entry(st: ScanModel, key: Seq<char>, val: Seq<char>) -> ScanModel {
    if key == "numberstartingpoints"@ {
        ScanModel {
            starting_points: match usize_of(val) {
                Some(n) => n,
                None => 0,
            },
            ..st
        }
    } else if has_prefix(key, "waypoint"@) {
        with_waypoint(st, val)
    } else if key == "width"@ {
        ScanModel {
            header_size: Some((number_or_zero(val), second_or_zero(st.header_size))),
            ..st
        }
    } else if key == "height"@ {
        ScanModel {
            header_size: Some((first_or_zero(st.header_size), number_or_zero(val))),
            ..st
        }
    } else if key == "startx"@ {
        ScanModel { start: Some((number_or_zero(val), second_or_zero(st.start))), ..st }
    } else if key == "starty"@ {
        ScanModel { start: Some((first_or_zero(st.start), number_or_zero(val))), ..st }
    } else {
        st
    }
}

/// The entry `key=value`, both trimmed, read under the current section.
pub open spec fn scan_entry(st: ScanModel, key: Seq<char>, val: Seq<char>) -> ScanModel {
    let section = lowered(st.section);
    if section == "map"@ {
        scan_map_entry(st, lowered(key), val)
    } else if section == "header"@ {
        scan_header_entry(st, lowered(key), val)
    } else if section == "waypoints"@ {
        if all_digits(key) && val.contains(',') {
            with_waypoint(st, val)
        } else {
            st
        }
    } else if section == "units"@ {
        match pin_of(val) {
            Some(pin) => ScanModel { units: st.units.push(pin), ..st },
            None => st,
        }
    } else if section == "structures"@ {
        match pin_of(val) {
            Some(pin) => ScanModel { structures: st.structures.push(pin), ..st },
            None => st,
        }
    } else {
        st
    }
}

/// One line of the text.
pub open spec fn scan_line(st: ScanModel, raw: Seq<char>) -> ScanModel {
    let line = trimmed(raw);
    if line.len() == 0 || line[0] == ';' {
        st
    } else if line[0] == '[' && line.last() == ']' {
        ScanModel { section: line.subrange(1, line.len() - 1), ..st }
    } else {
        match cut_at_first(line, '=') {
            Some((key, val)) => scan_entry(st, trimmed(key), trimmed(val)),
            None => st,
        }
    }
}

/// All the lines, first to last.
pub open spec fn scan_lines(lines: Seq<Seq<char>>) -> ScanModel
    decreases lines.len(),
{
    if lines.len() == 0 {
        empty_scan()
    } else {
        scan_line(scan_lines(lines.drop_last()), lines.last())
    }
}

/// Extents of the map: `Map.LocalSize` before `Map.Size` before the header's
/// `Width` and `Height`, and 64 by 64 where the text gives none.
pub open spec fn resolved_size(st: ScanModel) -> (i32, i32) {
    match st.local {
        Some((_, _, w, h)) => (w, h),
        None => match st.size {
            Some(wh) => wh,
            None => match st.header_size {
                Some(wh) => wh,
                None => (64, 64),
            },
        },
    }
}

/// Local origin: the header's `StartX` and `StartY` before the origin of
/// `Map.LocalSize`, and `(0, 0)` where the text gives none.
pub open spec fn resolved_origin(st: ScanModel) -> (i32, i32) {
    match st.start {
        Some(xy) => xy,
        None => match st.local {
            Some((x, y, _, _)) => (x, y),
            None => (0, 0),
        },
    }
}

/// The map that a scan amounts to. The legacy text carries no elevations.
pub open spec fn legacy_map(st: ScanModel) -> MapModel {
    MapModel {
        theater: match st.theater {
            Some(t) => t,
            None => Theater::Unknown,
        },
        width: resolved_size(st).0,
        height: resolved_size(st).1,
        local_origin_x: resolved_origin(st).0,
        local_origin_y: resolved_origin(st).1,
        elevations: Seq::empty(),
        waypoints: st.waypoints,
        num_starting_points: st.starting_points,
        units: st.units,
        structures: st.structures,
    }
}

/// What decoding the legacy text of the document at `path` gives.
pub open spec fn legacy_outcome(path: Seq<char>, text: Seq<char>) -> Result<
    MapModel,
    MapErrorModel,
> {
    let st = scan_lines(fields(text, '\n'));
    if resolved_size(st).0 <= 0 || resolved_size(st).1 <= 0 {
        Err(MapErrorModel::InvalidSize { path })
    } else {
        Ok(legacy_map(st))
    }
}

struct LegacyScan {
    section: Vec<char>,
    theater: Option<Theater>,
    size: Option<(i32, i32)>,
    local: Option<(i32, i32, i32, i32)>,
    header_size: Option<(i32, i32)>,
    start: Option<(i32, i32)>,
    starting_points: usize,
    waypoints: Vec<(i32, i32)>,
    units: Vec<MapPin>,
    structures: Vec<MapPin>,
}

impl View for LegacyScan {
    type V = ScanModel;

    closed spec fn view(&self) -> ScanModel {
        ScanModel {
            section: self.section@,
            theater: self.theater,
            size: self.size,
            local: self.local,
            header_size: self.header_size,
            start: self.start,
            starting_points: self.starting_points,
            waypoints: self.waypoints@,
            units: pin_views(self.units@),
            structures: pin_views(self.structures@),
        }
    }
}

/// The integers among the fields `parts`.
fn numbers_among(parts: &Vec<&[char]>) -> (out: Vec<i32>)
    ensures
        out@ == numbers_in(slice_views(parts@)),
{
    let ghost all = slice_views(parts@);
    let mut out: Vec<i32> = Vec::new();
    let mut i: usize = 0;
    while i < parts.len()
        invariant
            i <= parts.len(),
            all == slice_views(parts@),
            out@ == numbers_in(all.subrange(0, i as int)),
        decreases parts.len() - i,
    {
        proof {
            assert(all.subrange(0, i + 1).drop_last() =~= all.subrange(0, i as int));
            assert(all.subrange(0, i + 1).last() == parts@[i as int]@);
        }
        match parse_i32(trim(parts[i])) {
            Some(n) => {
                out.push(n);
            },
            None => {},
        }
        i += 1;
    }
    assert(all.subrange(0, i as int) =~= all);
    out
}

/// The integers of a comma-separated value.
fn numbers(val: &[char]) -> (out: Vec<i32>)
    ensures
        out@ == numbers_of(val@),
{
    let parts = split(val, ',');
    numbers_among(&parts)
}

fn pin_from_chars(csv: &[char]) -> (r: Option<MapPin>)
    ensures
        match r {
            Some(pin) => pin_of(csv@) == Some(pin@),
            None => pin_of(csv@) is None,
        },
{
    let parts = split(csv, ',');
    let nums = numbers_among(&parts);
    if nums.len() < 2 {
        return None;
    }
    assert(slice_views(parts@)[0] == parts@[0]@);
    let owner = from_chars(trim(parts[0]));
    let kind = if parts.len() > 1 {
        assert(slice_views(parts@)[1] == parts@[1]@);
        from_chars(trim(parts[1]))
    } else {
        String::from_str("Obj")
    };
    Some(MapPin { x: nums[nums.len() - 2], y: nums[nums.len() - 1], kind, owner: Some(owner) })
}

/// Reads one object line of `[Units]` or `[Structures]`.
pub fn parse_pin_line(csv: &str) -> (r: Option<MapPin>)
    ensures
        match r {
            Some(pin) => pin_of(csv@) == Some(pin@),
            None => pin_of(csv@) is None,
        },
{
    let chars = to_chars(csv);
    pin_from_chars(chars.as_slice())
}

fn number_or_default(val: &[char]) -> (n: i32)
    ensures
        n == number_or_zero(val@),
{
    match parse_i32(val) {
        Some(n) => n,
        None => 0,
    }
}

impl LegacyScan {
    fn new() -> (st: LegacyScan)
        ensures
            st@ == empty_scan(),
    {
        let st = LegacyScan {
            section: Vec::new(),
            theater: None,
            size: None,
            local: None,
            header_size: None,
            start: None,
            starting_points: 0,
            waypoints: Vec::new(),
            units: Vec::new(),
            structures: Vec::new(),
        };
        assert(pin_views(st.units@) =~= Seq::<PinModel>::empty());
        assert(pin_views(st.structures@) =~= Seq::<PinModel>::empty());
        st
    }

    fn add_waypoint(&mut self, val: &[char])
        ensures
            final(self)@ == with_waypoint(old(self)@, val@),
    {
        let nums = numbers(val);
        if nums.len() == 2 {
            self.waypoints.push((nums[0], nums[1]));
        }
    }

    fn map_entry(&mut self, key: &[char], val: &[char])
        ensures
            final(self)@ == scan_map_entry(old(self)@, lowered(key@), val@),
    {
        if matches_word(key, "theater") {
            let name = from_chars(val);
            self.theater = Some(Theater::from_str(name.as_str()));
        } else if matches_word(key, "size") {
            let nums = numbers(val);
            if nums.len() == 2 {
                self.size = Some((nums[0], nums[1]));
            } else if nums.len() == 4 {
                self.size = Some((nums[2], nums[3]));
            }
        } else if matches_word(key, "localsize") {
            let nums = numbers(val);
            if nums.len() == 4 {
                self.local = Some((nums[0], nums[1], nums[2], nums[3]));
            }
        }
    }

    fn header_entry(&mut self, key: &[char], val: &[char])
        ensures
            final(self)@ == scan_header_entry(old(self)@, lowered(key@), val@),
    {
        if matches_word(key, "numberstartingpoints") {
            self.starting_points = match parse_usize(val) {
                Some(n) => n,
                None => 0,
            };
        } else if starts_with_word(key, "waypoint") {
            self.add_waypoint(val);
        } else if matches_word(key, "width") {
            let h: i32 = match self.header_size {
                Some((_, h)) => h,
                None => 0,
            };
            self.header_size = Some((number_or_default(val), h));
        } else if matches_word(key, "height") {
            let w: i32 = match self.header_size {
                Some((w, _)) => w,
                None => 0,
            };
            self.header_size = Some((w, number_or_default(val)));
        } else if matches_word(key, "startx") {
            let y: i32 = match self.start {
                Some((_, y)) => y,
                None => 0,
            };
            self.start = Some((number_or_default(val), y));
        } else if matches_word(key, "starty") {
            let x: i32 = match self.start {
                Some((x, _)) => x,
                None => 0,
            };
            self.start = Some((x, number_or_default(val)));
        }
    }

    fn entry(&mut self, key: &[char], val: &[char])
        ensures
            final(self)@ == scan_entry(old(self)@, key@, val@),
    {
        if matches_word(self.section.as_slice(), "map") {
            self.map_entry(key, val);
        } else if matches_word(self.section.as_slice(), "header") {
            self.header_entry(key, val);
        } else if matches_word(self.section.as_slice(), "waypoints") {
            if is_all_digits(key) && contains_char(val, ',') {
                self.add_waypoint(val);
            }
        } else if matches_word(self.section.as_slice(), "units") {
            match pin_from_chars(val) {
                Some(pin) => {
                    let ghost before = pin_views(self.units@);
                    self.units.push(pin);
                    assert(pin_views(self.units@) =~= before.push(pin@));
                },
                None => {},
            }
        } else if matches_word(self.section.as_slice(), "structures") {
            match pin_from_chars(val) {
                Some(pin) => {
                    let ghost before = pin_views(self.structures@);
                    self.structures.push(pin);
                    assert(pin_views(self.structures@) =~= before.push(pin@));
                },
                None => {},
            }
        }
    }

    fn line(&mut self, raw: &[char])
        ensures
            final(self)@ == scan_line(old(self)@, raw@),
    {
        let line = trim(raw);
        if line.len() == 0 || line[0] == ';' {
            return ;
        }
        if line[0] == '[' && line[line.len() - 1] == ']' {
            self.section = vstd::slice::slice_to_vec(
                vstd::slice::slice_subrange(line, 1, line.len() - 1),
            );
            return ;
        }
        match split_once(line, '=') {
            Some((key, val)) => {
                self.entry(trim(key), trim(val));
            },
            None => {},
        }
    }
}

/// Decodes the legacy text `text` of the document at `path`.
///
/// Fails with `InvalidSize` exactly when the resolved width or height is not
/// positive.
pub fn parse_legacy_ini_map(path: &str, text: &str) -> (r: Result<MapData, MapError>)
    ensures
        outcome_view(r) == legacy_outcome(path@, text@),
        r matches Ok(map) ==> map@.has_valid_size(),
{
    let chars = to_chars(text);
    let lines = split(chars.as_slice(), '\n');
    let ghost all = fields(text@, '\n');
    let mut st = LegacyScan::new();
    let mut i: usize = 0;
    while i < lines.len()
        invariant
            i <= lines.len(),
            all == slice_views(lines@),
            st@ == scan_lines(all.subrange(0, i as int)),
        decreases lines.len() - i,
    {
        proof {
            assert(all.subrange(0, i + 1).drop_last() =~= all.subrange(0, i as int));
            assert(all.subrange(0, i + 1).last() == lines@[i as int]@);
        }
        st.line(lines[i]);
        i += 1;
    }
    assert(all.subrange(0, i as int) =~= all);
    let (width, height): (i32, i32) = match st.local {
        Some((_, _, w, h)) => (w, h),
        None => match st.size {
            Some(wh) => wh,
            None => match st.header_size {
                Some(wh) => wh,
                None => (64, 64),
            },
        },
    };
    if width <= 0 || height <= 0 {
        return Err(invalid_map_size(path));
    }
    let (origin_x, origin_y): (i32, i32) = match st.start {
        Some(xy) => xy,
        None => match st.local {
            Some((x, y, _, _)) => (x, y),
            None => (0, 0),
        },
    };
    let theater = match st.theater {
        Some(t) => t,
        None => Theater::Unknown,
    };
    Ok(
        MapData {
            theater,
            width,
            height,
            local_origin_x: origin_x,
            local_origin_y: origin_y,
            elevations: Vec::new(),
            waypoints: st.waypoints,
            num_starting_points: st.starting_points,
            units: st.units,
            structures: st.structures,
        },
    )
}

} // verus!
