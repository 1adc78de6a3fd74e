use map_editor::error::MapError;
use map_editor::legacy::{parse_legacy_ini_map, parse_pin_line};
use map_editor::map_data::{MapPin, Theater};

fn pin(x: i32, y: i32, owner: &str, kind: &str) -> MapPin {
    MapPin { x, y, kind: kind.to_string(), owner: Some(owner.to_string()) }
}

#[test]
fn local_size_takes_precedence_over_size() {
    let map = parse_legacy_ini_map("a.map", "[Map]\nSize=1,2,3,4\nLocalSize=5,6,7,8\n").unwrap();
    assert_eq!((map.width, map.height), (7, 8));
    assert_eq!((map.local_origin_x, map.local_origin_y), (5, 6));
}

#[test]
fn local_size_wins_whatever_the_order() {
    let map = parse_legacy_ini_map("a.map", "[Map]\nLocalSize=5,6,7,8\nSize=1,2,3,4\n").unwrap();
    assert_eq!((map.width, map.height), (7, 8));
}

#[test]
fn size_with_four_numbers_uses_the_last_two() {
    let map = parse_legacy_ini_map("a.map", "[Map]\nSize=1,2,3,4\n").unwrap();
    assert_eq!((map.width, map.height), (3, 4));
    assert_eq!((map.local_origin_x, map.local_origin_y), (0, 0));
}

#[test]
fn size_with_two_numbers() {
    let map = parse_legacy_ini_map("a.map", "[Map]\nSize = 30 , 40\n").unwrap();
    assert_eq!((map.width, map.height), (30, 40));
}

#[test]
fn size_with_three_numbers_is_ignored() {
    let map = parse_legacy_ini_map("a.map", "[Map]\nSize=1,2,3\n").unwrap();
    assert_eq!((map.width, map.height), (64, 64));
}

#[test]
fn header_width_and_height_are_the_fallback() {
    let map = parse_legacy_ini_map("a.map", "[Header]\nWidth=10\nHeight=20\n").unwrap();
    assert_eq!((map.width, map.height), (10, 20));
}

#[test]
fn header_size_loses_against_map_size() {
    let map =
        parse_legacy_ini_map("a.map", "[Header]\nWidth=10\nHeight=20\n[Map]\nSize=5,6\n").unwrap();
    assert_eq!((map.width, map.height), (5, 6));
}

#[test]
fn header_width_alone_is_an_invalid_size() {
    let r = parse_legacy_ini_map("w.map", "[Header]\nWidth=10\n");
    assert_eq!(r, Err(MapError::InvalidSize { path: "w.map".to_string() }));
}

#[test]
fn start_takes_precedence_over_local_origin() {
    let map = parse_legacy_ini_map(
        "a.map",
        "[Header]\nStartX=5\nStartY=6\n[Map]\nLocalSize=1,2,30,30\n",
    )
    .unwrap();
    assert_eq!((map.local_origin_x, map.local_origin_y), (5, 6));
    assert_eq!((map.width, map.height), (30, 30));
}

#[test]
fn local_origin_is_used_without_start() {
    let map = parse_legacy_ini_map("a.map", "[Map]\nLocalSize=1,2,30,30\n").unwrap();
    assert_eq!((map.local_origin_x, map.local_origin_y), (1, 2));
}

#[test]
fn start_x_alone_leaves_y_at_zero() {
    let map = parse_legacy_ini_map("a.map", "[Header]\nStartX=9\n").unwrap();
    assert_eq!((map.local_origin_x, map.local_origin_y), (9, 0));
}

#[test]
fn zero_size_is_invalid() {
    let r = parse_legacy_ini_map("maps/bad.map", "[Map]\nSize=0,0\n");
    let e = r.unwrap_err();
    assert_eq!(e, MapError::InvalidSize { path: "maps/bad.map".to_string() });
    assert_eq!(e.message(), "Invalid map size in maps/bad.map");
}

#[test]
fn negative_width_is_invalid() {
    let r = parse_legacy_ini_map("n.map", "[Map]\nSize=-3,4\n");
    assert!(matches!(r, Err(MapError::InvalidSize { .. })));
}

#[test]
fn empty_text_is_a_default_map() {
    let map = parse_legacy_ini_map("a.map", "").unwrap();
    assert_eq!((map.width, map.height), (64, 64));
    assert_eq!(map.theater, Theater::Unknown);
    assert_eq!(map.num_starting_points, 0);
    assert!(map.waypoints.is_empty());
    assert!(map.units.is_empty());
    assert!(map.structures.is_empty());
    assert!(map.elevations.is_empty());
}

#[test]
fn pin_line_takes_last_two_integers() {
    assert_eq!(parse_pin_line("GoodGuy,Tank,10,20,5"), Some(pin(20, 5, "GoodGuy", "Tank")));
    assert_eq!(parse_pin_line("GoodGuy,Tank,10,20"), Some(pin(10, 20, "GoodGuy", "Tank")));
    assert_eq!(parse_pin_line("GoodGuy,Tank,10,20,NE"), Some(pin(10, 20, "GoodGuy", "Tank")));
}

#[test]
fn pin_line_of_two_numbers() {
    assert_eq!(parse_pin_line("7,8"), Some(pin(7, 8, "7", "8")));
}

#[test]
fn pin_line_trims_fields() {
    assert_eq!(parse_pin_line("  Red , Barracks ,  3 , -4 "), Some(pin(3, -4, "Red", "Barracks")));
}

#[test]
fn pin_line_with_fewer_than_two_integers_is_dropped() {
    assert_eq!(parse_pin_line("GoodGuy,Tank,10"), None);
    assert_eq!(parse_pin_line(""), None);
    assert_eq!(parse_pin_line("5"), None);
    assert_eq!(parse_pin_line("a,b,c"), None);
}

#[test]
fn pin_line_skips_numbers_out_of_range() {
    assert_eq!(parse_pin_line("A,B,1,2,99999999999"), Some(pin(1, 2, "A", "B")));
    assert_eq!(parse_pin_line("A,B,2147483647,-2147483648"), Some(pin(2147483647, -2147483648, "A", "B")));
    assert_eq!(parse_pin_line("A,B,2147483648,1,2"), Some(pin(1, 2, "A", "B")));
    assert_eq!(parse_pin_line("A,B,+7,0008"), Some(pin(7, 8, "A", "B")));
    assert_eq!(parse_pin_line("A,B,+,-,1,2"), Some(pin(1, 2, "A", "B")));
}

#[test]
fn whole_legacy_map() {
    let text = "; a comment\r\n[Map]\r\nTheater = SNOW\r\nSize=0,0,40,50\r\n\r\n[HEADER]\r\n\
                NumberStartingPoints=2\r\nWaypoint1=3,4\r\nwaypoint2 = 5 , 6\r\nWaypoint3=7\r\n\
                [Waypoints]\r\n0=11,12\r\n1=1234\r\nx=1,2\r\n[Units]\r\n0=Red,Tank,1,2\r\n1=bad\r\n\
                [Structures]\r\n0=Blue,Yard,9,8,256\r\n[Other]\r\nSize=1,1\r\nno equals sign\r\n";
    let map = parse_legacy_ini_map("x.MAP", text).unwrap();
    assert_eq!(map.theater, Theater::Snow);
    assert_eq!((map.width, map.height), (40, 50));
    assert_eq!(map.num_starting_points, 2);
    assert_eq!(map.waypoints, vec![(3, 4), (5, 6), (11, 12)]);
    assert_eq!(map.units, vec![pin(1, 2, "Red", "Tank")]);
    assert_eq!(map.structures, vec![pin(8, 256, "Blue", "Yard")]);
}

#[test]
fn section_names_are_not_trimmed_inside_the_brackets() {
    let map = parse_legacy_ini_map("a.map", "[ Map ]\nSize=5,6\n").unwrap();
    assert_eq!((map.width, map.height), (64, 64));
}

#[test]
fn entries_before_any_section_are_ignored() {
    let map = parse_legacy_ini_map("a.map", "Size=5,6\nTheater=snow\n").unwrap();
    assert_eq!((map.width, map.height), (64, 64));
    assert_eq!(map.theater, Theater::Unknown);
}

#[test]
fn unparsable_starting_points_are_zero() {
    let map = parse_legacy_ini_map("a.map", "[Header]\nNumberStartingPoints=-1\n").unwrap();
    assert_eq!(map.num_starting_points, 0);
    let map = parse_legacy_ini_map("a.map", "[Header]\nNumberStartingPoints=many\n").unwrap();
    assert_eq!(map.num_starting_points, 0);
    let map = parse_legacy_ini_map("a.map", "[Header]\nNumberStartingPoints=+4\n").unwrap();
    assert_eq!(map.num_starting_points, 4);
}

#[test]
fn theater_aliases() {
    assert_eq!(Theater::from_str("  New Urban "), Theater::NewUrban);
    assert_eq!(Theater::from_str("NEWURBAN"), Theater::NewUrban);
    assert_eq!(Theater::from_str("temperate"), Theater::Temperate);
    assert_eq!(Theater::from_str("Desert"), Theater::Desert);
    assert_eq!(Theater::from_str("lunar"), Theater::Lunar);
    assert_eq!(Theater::from_str("urban"), Theater::Urban);
    assert_eq!(Theater::from_str("jungle"), Theater::Unknown);
    assert_eq!(Theater::from_str(""), Theater::Unknown);
    assert_eq!(Theater::from_str("new  urban"), Theater::Unknown);
}
