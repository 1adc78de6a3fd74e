//! The decoded contents of one map document, and the blank map.

use crate::text::{matches_word, to_chars, trim, lowered, trimmed};
use vstd::prelude::*;

verus! {

/// Terrain palette of a map.
#[derive(Debug, Clone, Copy, PartialEq, Eq, Structural)]
pub enum Theater {
    Temperate,
    Snow,
    Urban,
    NewUrban,
    Desert,
    Lunar,
    Unknown,
}

impl Default for Theater {
    fn default() -> (t: Theater)
        ensures
            t == Theater::Temperate,
    {
        Theater::Temperate
    }
}

/// The theater of a document that names none.
pub fn default_theater() -> (t: Theater)
    ensures
        t == Theater::Temperate,
{
    Theater::Temperate
}

/// The theater that a free text names: white space around it and the case of
/// ASCII letters do not count, `new urban` may be written in one word or in
/// two, and any other text is `Unknown`.
pub open spec fn theater_of(s: Seq<char>) -> Theater {
    let name = lowered(trimmed(s));
    if name == "temperate"@ {
        Theater::Temperate
    } else if name == "snow"@ {
        Theater::Snow
    } else if name == "urban"@ {
        Theater::Urban
    } else if name == "new urban"@ || name == "newurban"@ {
        Theater::NewUrban
    } else if name == "desert"@ {
        Theater::Desert
    } else if name == "lunar"@ {
        Theater::Lunar
    } else {
        Theater::Unknown
    }
}

/// The name under which a structured document stores a theater.
pub open spec fn theater_name(t: Theater) -> Seq<char> {
    match t {
        Theater::Temperate => "temperate"@,
        Theater::Snow => "snow"@,
        Theater::Urban => "urban"@,
        Theater::NewUrban => "newurban"@,
        Theater::Desert => "desert"@,
        Theater::Lunar => "lunar"@,
        Theater::Unknown => "unknown"@,
    }
}

impl Theater {
    /// The theater that the text `s` names.
    pub fn from_str(s: &str) -> (t: Theater)
        ensures
            t == theater_of(s@),
    {
        let chars = to_chars(s);
        let name = trim(chars.as_slice());
        if matches_word(name, "temperate") {
            Theater::Temperate
        } else if matches_word(name, "snow") {
            Theater::Snow
        } else if matches_word(name, "urban") {
            Theater::Urban
        } else if matches_word(name, "new urban") || matches_word(name, "newurban") {
            Theater::NewUrban
        } else if matches_word(name, "desert") {
            Theater::Desert
        } else if matches_word(name, "lunar") {
            Theater::Lunar
        } else {
            Theater::Unknown
        }
    }

    /// The stored name of the theater.
    pub fn name(self) -> (s: &'static str)
        ensures
            s@ == theater_name(self),
    {
        match self {
            Theater::Temperate => "temperate",
            Theater::Snow => "snow",
            Theater::Urban => "urban",
            Theater::NewUrban => "newurban",
            Theater::Desert => "desert",
            Theater::Lunar => "lunar",
            Theater::Unknown => "unknown",
        }
    }
}

/// Reading back the stored name of a theater gives the theater.
pub proof fn lemma_theater_name_round_trip(t: Theater)
    ensures
        theater_of(theater_name(t)) == t,
{
    reveal_strlit("temperate");
    reveal_strlit("snow");
    reveal_strlit("urban");
    reveal_strlit("new urban");
    reveal_strlit("newurban");
    reveal_strlit("desert");
    reveal_strlit("lunar");
    reveal_strlit("unknown");
    let s = theater_name(t);
    crate::text::lemma_trimmed(s);
    assert(s.len() > 0);
    assert(!crate::text::is_space(s[0]));
    assert(!crate::text::is_space(s[s.len() - 1]));
    assert(crate::text::skip_spaces(s, 0) == 0);
    assert(crate::text::skip_spaces_back(s, 0, s.len() as int) == s.len());
    assert(trimmed(s) =~= s);
    assert(lowered(s) =~= s);
}

/// A unit or structure marker in local coordinates.
#[derive(Debug, Clone, PartialEq, Eq)]
pub struct MapPin {
    pub x: i32,
    pub y: i32,
    pub kind: String,
    pub owner: Option<String>,
}

/// What a `MapPin` holds.
pub struct PinModel {
    pub x: i32,
    pub y: i32,
    pub kind: Seq<char>,
    pub owner: Option<Seq<char>>,
}

/// What an optional string holds.
pub open spec fn text_view(s: Option<String>) -> Option<Seq<char>> {
    match s {
        Some(t) => Some(t@),
        None => None,
    }
}

impl View for MapPin {
    type V = PinModel;

    open spec fn view(&self) -> PinModel {
        PinModel { x: self.x, y: self.y, kind: self.kind@, owner: text_view(self.owner) }
    }
}

/// What a list of pins holds, pin by pin.
pub open spec fn pin_views(pins: Seq<MapPin>) -> Seq<PinModel> {
    Seq::new(pins.len(), |i: int| pins[i]@)
}

/// The contents of one map document.
#[derive(Debug, Clone, PartialEq, Eq)]
pub struct MapData {
    pub theater: Theater,
    pub width: i32,
    pub height: i32,
    /// Offset that turns whole-map coordinates into this document's own.
    pub local_origin_x: i32,
    pub local_origin_y: i32,
    /// Elevation of each tile, row by row.
    pub elevations: Vec<i32>,
    pub waypoints: Vec<(i32, i32)>,
    /// The first `num_starting_points` waypoints are player starts.
    pub num_starting_points: usize,
    pub units: Vec<MapPin>,
    pub structures: Vec<MapPin>,
}

/// What a `MapData` holds.
pub struct MapModel {
    pub theater: Theater,
    pub width: i32,
    pub height: i32,
    pub local_origin_x: i32,
    pub local_origin_y: i32,
    pub elevations: Seq<i32>,
    pub waypoints: Seq<(i32, i32)>,
    pub num_starting_points: usize,
    pub units: Seq<PinModel>,
    pub structures: Seq<PinModel>,
}

impl View for MapData {
    type V = MapModel;

    open spec fn view(&self) -> MapModel {
        MapModel {
            theater: self.theater,
            width: self.width,
            height: self.height,
            local_origin_x: self.local_origin_x,
            local_origin_y: self.local_origin_y,
            elevations: self.elevations@,
            waypoints: self.waypoints@,
            num_starting_points: self.num_starting_points,
            units: pin_views(self.units@),
            structures: pin_views(self.structures@),
        }
    }
}

/// Number of tiles of a `width` by `height` grid, capped at `usize::MAX`;
/// a grid without positive extents has none.
pub open spec fn tile_count_of(width: i32, height: i32) -> nat {
    if width <= 0 || height <= 0 {
        0
    } else if width * height > usize::MAX {
        usize::MAX as nat
    } else {
        (width * height) as nat
    }
}

/// `e` cut or padded with zeros to exactly `n` entries.
pub open spec fn fitted(e: Seq<i32>, n: nat) -> Seq<i32> {
    if e.len() >= n {
        e.subrange(0, n as int)
    } else {
        e + Seq::new((n - e.len()) as nat, |i: int| 0i32)
    }
}

/// The elevation stored for tile `(x, y)`, if the tile lies on the grid and
/// the buffer reaches that far.
pub open spec fn elevation_of(m: MapModel, x: i32, y: i32) -> Option<i32> {
    if 0 <= x < m.width && 0 <= y < m.height && y * m.width + x < m.elevations.len() {
        Some(m.elevations[y * m.width + x])
    } else {
        None
    }
}

/// The empty temperate map of the given extents, each raised to at least 1.
pub open spec fn blank_model(width: i32, height: i32) -> MapModel {
    let w = if width < 1 {
        1i32
    } else {
        width
    };
    let h = if height < 1 {
        1i32
    } else {
        height
    };
    MapModel {
        theater: Theater::Temperate,
        width: w,
        height: h,
        local_origin_x: 0,
        local_origin_y: 0,
        elevations: Seq::new(tile_count_of(w, h), |i: int| 0i32),
        waypoints: Seq::empty(),
        num_starting_points: 0,
        units: Seq::empty(),
        structures: Seq::empty(),
    }
}

impl MapModel {
    /// Both extents are positive, as after every successful load.
    pub open spec fn has_valid_size(self) -> bool {
        self.width > 0 && self.height > 0
    }

    /// The elevation buffer has one entry per tile.
    pub open spec fn elevations_fit(self) -> bool {
        self.elevations.len() == tile_count_of(self.width, self.height)
    }
}

impl MapData {
    /// Number of tiles of the grid.
    pub fn tile_count(&self) -> (n: usize)
        ensures
            n == tile_count_of(self.width, self.height),
    {
        if self.width <= 0 || self.height <= 0 {
            0
        } else {
            let w: usize = self.width as usize;
            let h: usize = self.height as usize;
            match w.checked_mul(h) {
                Some(n) => n,
                None => usize::MAX,
            }
        }
    }

    /// Cuts or zero-pads the elevation buffer to one entry per tile.
    pub fn ensure_elevations(&mut self)
        ensures
            final(self)@ == (MapModel {
                elevations: fitted(
                    old(self)@.elevations,
                    tile_count_of(old(self).width, old(self).height),
                ),
                ..old(self)@
            }),
            final(self)@.elevations_fit(),
    {
        let expected: usize = self.tile_count();
        if expected == 0 {
            self.elevations.clear();
        } else if self.elevations.len() != expected {
            self.elevations.resize(expected, 0);
        }
        assert(self.elevations@ =~= fitted(old(self)@.elevations, expected as nat));
    }

    /// The elevation of the tile in column `x` of row `y`.
    pub fn elevation_at(&self, x: i32, y: i32) -> (r: Option<i32>)
        ensures
            r == elevation_of(self@, x, y),
    {
        if x < 0 || y < 0 || x >= self.width || y >= self.height {
            return None;
        }
        assert(0 <= y * self.width <= 0x7FFF_FFFF * 0x7FFF_FFFF) by (nonlinear_arith)
            requires
                0 <= y <= 0x7FFF_FFFF,
                0 <= self.width <= 0x7FFF_FFFF,
        ;
        let idx: u64 = (y as u64) * (self.width as u64) + (x as u64);
        if idx < self.elevations.len() as u64 {
            Some(self.elevations[idx as usize])
        } else {
            None
        }
    }
}

/// A blank map of the given extents, each raised to at least 1.
pub fn blank_map(width: i32, height: i32) -> (map: MapData)
    ensures
        map@ == blank_model(width, height),
        map@.has_valid_size(),
        map@.elevations_fit(),
{
    let mut map = MapData {
        theater: Theater::Temperate,
        width: if width < 1 {
            1
        } else {
            width
        },
        height: if height < 1 {
            1
        } else {
            height
        },
        local_origin_x: 0,
        local_origin_y: 0,
        elevations: Vec::new(),
        waypoints: Vec::new(),
        num_starting_points: 0,
        units: Vec::new(),
        structures: Vec::new(),
    };
    map.ensure_elevations();
    assert(map@.elevations =~= blank_model(width, height).elevations);
    assert(map@.units =~= Seq::<PinModel>::empty());
    assert(map@.structures =~= Seq::<PinModel>::empty());
    map
}

} // verus!
