use map_editor::document::{default_map_template, document_of, parse_mpr, MprDocument, PinRecord};
use map_editor::error::{invalid_map_size, MapError};
use map_editor::map_data::{blank_map, default_theater, MapData, MapPin, Theater};
use map_editor::parser::{names_map, names_structured_document, parse_map, MapSource};

fn bare_document(width: i32, height: i32) -> MprDocument {
    MprDocument {
        theater: None,
        width,
        height,
        local_origin_x: None,
        local_origin_y: None,
        elevations: None,
        waypoints: None,
        num_starting_points: None,
        units: None,
        structures: None,
    }
}

fn sample_map() -> MapData {
    MapData {
        theater: Theater::NewUrban,
        width: 3,
        height: 2,
        local_origin_x: -4,
        local_origin_y: 9,
        elevations: vec![0, 1, 2, 3, 4, 5],
        waypoints: vec![(1, 2), (3, 4)],
        num_starting_points: 1,
        units: vec![MapPin { x: 1, y: 1, kind: "Tank".to_string(), owner: Some("Red".to_string()) }],
        structures: vec![MapPin { x: 2, y: 0, kind: String::new(), owner: None }],
    }
}

#[test]
fn blank_map_has_the_given_size() {
    let map = blank_map(4, 3);
    assert_eq!(map.theater, Theater::Temperate);
    assert_eq!((map.width, map.height), (4, 3));
    assert_eq!((map.local_origin_x, map.local_origin_y), (0, 0));
    assert_eq!(map.elevations, vec![0; 12]);
    assert!(map.waypoints.is_empty());
    assert_eq!(map.num_starting_points, 0);
    assert!(map.units.is_empty());
    assert!(map.structures.is_empty());
}

#[test]
fn blank_map_raises_extents_to_one() {
    let map = blank_map(0, -5);
    assert_eq!((map.width, map.height), (1, 1));
    assert_eq!(map.elevations, vec![0]);
    let map = blank_map(3, 0);
    assert_eq!((map.width, map.height), (3, 1));
    assert_eq!(map.elevations.len(), 3);
}

#[test]
fn default_theater_is_temperate() {
    assert_eq!(default_theater(), Theater::Temperate);
    assert_eq!(Theater::default(), Theater::Temperate);
}

#[test]
fn tile_count_is_the_product_of_positive_extents() {
    let mut map = blank_map(5, 7);
    assert_eq!(map.tile_count(), 35);
    map.width = 0;
    assert_eq!(map.tile_count(), 0);
    map.width = -2;
    assert_eq!(map.tile_count(), 0);
    map.width = 2;
    map.height = -1;
    assert_eq!(map.tile_count(), 0);
}

#[test]
fn ensure_elevations_pads_and_cuts() {
    let mut map = blank_map(2, 2);
    map.elevations = vec![5, 6];
    map.ensure_elevations();
    assert_eq!(map.elevations, vec![5, 6, 0, 0]);
    map.elevations = vec![1, 2, 3, 4, 5, 6];
    map.ensure_elevations();
    assert_eq!(map.elevations, vec![1, 2, 3, 4]);
    map.ensure_elevations();
    assert_eq!(map.elevations, vec![1, 2, 3, 4]);
    map.width = 0;
    map.ensure_elevations();
    assert!(map.elevations.is_empty());
}

#[test]
fn elevation_at_reads_row_by_row() {
    let mut map = blank_map(3, 2);
    map.elevations = vec![10, 11, 12, 20, 21, 22];
    assert_eq!(map.elevation_at(0, 0), Some(10));
    assert_eq!(map.elevation_at(2, 0), Some(12));
    assert_eq!(map.elevation_at(0, 1), Some(20));
    assert_eq!(map.elevation_at(2, 1), Some(22));
    assert_eq!(map.elevation_at(3, 0), None);
    assert_eq!(map.elevation_at(0, 2), None);
    assert_eq!(map.elevation_at(-1, 0), None);
    assert_eq!(map.elevation_at(0, -1), None);
    map.elevations = vec![10, 11, 12, 20];
    assert_eq!(map.elevation_at(0, 1), Some(20));
    assert_eq!(map.elevation_at(1, 1), None);
}

#[test]
fn theater_names() {
    assert_eq!(Theater::Temperate.name(), "temperate");
    assert_eq!(Theater::NewUrban.name(), "newurban");
    assert_eq!(Theater::Unknown.name(), "unknown");
    for t in [
        Theater::Temperate,
        Theater::Snow,
        Theater::Urban,
        Theater::NewUrban,
        Theater::Desert,
        Theater::Lunar,
        Theater::Unknown,
    ] {
        assert_eq!(Theater::from_str(t.name()), t);
    }
}

#[test]
fn bare_document_takes_the_defaults() {
    let map = parse_mpr("a.mpr", &bare_document(2, 3)).unwrap();
    assert_eq!(map.theater, Theater::Temperate);
    assert_eq!((map.width, map.height), (2, 3));
    assert_eq!((map.local_origin_x, map.local_origin_y), (0, 0));
    assert_eq!(map.elevations, vec![0; 6]);
    assert!(map.waypoints.is_empty());
    assert_eq!(map.num_starting_points, 0);
    assert!(map.units.is_empty());
    assert!(map.structures.is_empty());
}

#[test]
fn document_fields_are_mapped() {
    let mut doc = bare_document(2, 2);
    doc.theater = Some("LUNAR".to_string());
    doc.local_origin_x = Some(7);
    doc.local_origin_y = Some(-8);
    doc.elevations = Some(vec![1, 2, 3, 4, 5]);
    doc.waypoints = Some(vec![(9, 9)]);
    doc.num_starting_points = Some(1);
    doc.units = Some(vec![PinRecord { x: 1, y: 2, kind: None, owner: None }]);
    doc.structures =
        Some(vec![PinRecord { x: 3, y: 4, kind: Some("Yard".to_string()), owner: Some("B".to_string()) }]);
    let map = parse_mpr("a.mpr", &doc).unwrap();
    assert_eq!(map.theater, Theater::Lunar);
    assert_eq!((map.local_origin_x, map.local_origin_y), (7, -8));
    assert_eq!(map.elevations, vec![1, 2, 3, 4]);
    assert_eq!(map.waypoints, vec![(9, 9)]);
    assert_eq!(map.num_starting_points, 1);
    assert_eq!(map.units, vec![MapPin { x: 1, y: 2, kind: String::new(), owner: None }]);
    assert_eq!(
        map.structures,
        vec![MapPin { x: 3, y: 4, kind: "Yard".to_string(), owner: Some("B".to_string()) }]
    );
}

#[test]
fn unknown_theater_name_falls_back() {
    let mut doc = bare_document(1, 1);
    doc.theater = Some("jungle".to_string());
    assert_eq!(parse_mpr("a.mpr", &doc).unwrap().theater, Theater::Unknown);
    doc.theater = Some("new urban".to_string());
    assert_eq!(parse_mpr("a.mpr", &doc).unwrap().theater, Theater::Unknown);
    doc.theater = Some("NewUrban".to_string());
    assert_eq!(parse_mpr("a.mpr", &doc).unwrap().theater, Theater::NewUrban);
}

#[test]
fn document_without_positive_size_is_refused() {
    for (w, h) in [(0, 5), (5, 0), (-1, 5), (5, -1), (0, 0)] {
        let r = parse_mpr("bad.mpr", &bare_document(w, h));
        assert_eq!(r, Err(MapError::InvalidSize { path: "bad.mpr".to_string() }));
    }
}

#[test]
fn saving_and_loading_gives_the_map_back() {
    let map = sample_map();
    let doc = document_of(&map);
    assert_eq!(doc.theater.as_deref(), Some("newurban"));
    assert_eq!(doc.width, 3);
    assert_eq!(doc.elevations, Some(vec![0, 1, 2, 3, 4, 5]));
    assert_eq!(doc.units.as_ref().unwrap()[0].kind.as_deref(), Some("Tank"));
    assert_eq!(doc.structures.as_ref().unwrap()[0].owner, None);
    assert_eq!(parse_mpr("s.mpr", &doc), Ok(map));
}

#[test]
fn saving_and_loading_a_blank_map() {
    let map = blank_map(64, 64);
    assert_eq!(parse_mpr("b.mpr", &document_of(&map)), Ok(map));
}

#[test]
fn template_or_blank() {
    let map = default_map_template(None);
    assert_eq!(map, blank_map(64, 64));
    let map = default_map_template(Some(&bare_document(0, 0)));
    assert_eq!(map, blank_map(64, 64));
    let map = default_map_template(Some(&bare_document(8, 4)));
    assert_eq!((map.width, map.height), (8, 4));
    assert_eq!(map.elevations.len(), 32);
}

#[test]
fn extension_decides_the_format() {
    assert!(names_structured_document("maps/main.mpr"));
    assert!(names_structured_document("MAIN.MPR"));
    assert!(!names_structured_document("main.map"));
    assert!(!names_structured_document("main.mpr.bak"));
    assert!(names_map("a.map"));
    assert!(names_map("a.Mpr"));
    assert!(!names_map("a.txt"));
    assert!(!names_map("map"));
}

#[test]
fn parse_map_dispatches_by_extension() {
    let doc = MapSource::Document(bare_document(2, 2));
    let text = MapSource::Text("[Map]\nSize=5,6\n".to_string());
    assert_eq!(parse_map("a.MPR", &doc).unwrap().elevations.len(), 4);
    assert_eq!(parse_map("a.map", &text).unwrap().width, 5);
    assert_eq!(parse_map("a.txt", &text).unwrap().height, 6);
    assert_eq!(
        parse_map("a.mpr", &text),
        Err(MapError::WrongSource { path: "a.mpr".to_string() })
    );
    assert_eq!(
        parse_map("a.map", &doc),
        Err(MapError::WrongSource { path: "a.map".to_string() })
    );
    let bad = MapSource::Malformed("expected value at line 1".to_string());
    let e = parse_map("a.mpr", &bad).unwrap_err();
    assert_eq!(
        e,
        MapError::InvalidDocument {
            path: "a.mpr".to_string(),
            reason: "expected value at line 1".to_string()
        }
    );
    assert_eq!(e.message(), "Invalid .mpr a.mpr: expected value at line 1");
}

#[test]
fn an_unreadable_file_is_reported() {
    let source = MapSource::Unreadable("No such file or directory".to_string());
    for path in ["a.mpr", "a.map"] {
        let e = parse_map(path, &source).unwrap_err();
        assert_eq!(
            e,
            MapError::Unreadable {
                path: path.to_string(),
                reason: "No such file or directory".to_string()
            }
        );
        assert_eq!(e.message(), format!("Cannot read {}: No such file or directory", path));
    }
}

#[test]
fn reopening_gives_the_same_map() {
    let text = MapSource::Text("[Map]\nSize=5,6\n[Units]\n0=A,B,1,2\n".to_string());
    assert_eq!(parse_map("a.map", &text), parse_map("a.map", &text));
    let doc = MapSource::Document(document_of(&sample_map()));
    assert_eq!(parse_map("a.mpr", &doc), parse_map("a.mpr", &doc));
}

#[test]
fn error_messages() {
    assert_eq!(invalid_map_size("x.map").message(), "Invalid map size in x.map");
    assert_eq!(
        MapError::WrongSource { path: "x".to_string() }.message(),
        "Contents do not fit the format of x"
    );
}
