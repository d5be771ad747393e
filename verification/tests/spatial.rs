use ecson::spatial::{move_command_fields, nearby_candidates_2d, nearby_candidates_3d, SpatialZone2D, SpatialZone3D};
use ecson::text::{chars_of, is_whitespace, trim_equals, trim_range};

fn z2(x: i32, y: i32) -> SpatialZone2D {
    SpatialZone2D { zone_x: x, zone_y: y }
}

#[test]
fn neighbors_2d_order() {
    let n = z2(5, -3).neighbors();
    assert_eq!(n[0], z2(4, -4));
    assert_eq!(n[1], z2(5, -4));
    assert_eq!(n[4], z2(5, -3));
    assert_eq!(n[8], z2(6, -2));
}

#[test]
fn neighbors_3d_order() {
    let n = SpatialZone3D { zone_x: 0, zone_y: 0, zone_z: 0 }.neighbors();
    assert_eq!(n[0], SpatialZone3D { zone_x: -1, zone_y: -1, zone_z: -1 });
    assert_eq!(n[13], SpatialZone3D { zone_x: 0, zone_y: 0, zone_z: 0 });
    assert_eq!(n[26], SpatialZone3D { zone_x: 1, zone_y: 1, zone_z: 1 });
    assert_eq!(n[5], SpatialZone3D { zone_x: 1, zone_y: 0, zone_z: -1 });
}

#[test]
fn zone_update_reports_change() {
    let mut z = SpatialZone2D::default();
    assert!(!z.update(z2(0, 0)));
    assert!(z.update(z2(1, 0)));
    assert_eq!(z, z2(1, 0));
}

#[test]
fn candidates_only_neighbouring_zones() {
    let zones = vec![z2(0, 0), z2(1, 1), z2(3, 0), z2(0, 0)];
    let pairs = nearby_candidates_2d(&zones, 1);
    // client 0 probes zone (0,0) first? order: (-1,-1),(0,-1),(1,-1),(-1,0),(0,0),(1,0),(-1,1),(0,1),(1,1)
    assert_eq!(pairs, vec![(0, 3), (0, 1), (1, 0), (1, 3), (3, 0), (3, 1)]);
}

#[test]
fn candidates_need_two_clients() {
    assert!(nearby_candidates_2d(&vec![z2(0, 0)], 2).is_empty());
    assert!(nearby_candidates_2d(&vec![], 1).is_empty());
}

#[test]
fn candidates_3d() {
    let zones = vec![
        SpatialZone3D { zone_x: 0, zone_y: 0, zone_z: 0 },
        SpatialZone3D { zone_x: 0, zone_y: 0, zone_z: 2 },
        SpatialZone3D { zone_x: 1, zone_y: -1, zone_z: 1 },
    ];
    assert_eq!(nearby_candidates_3d(&zones, 1), vec![(0, 2), (1, 2), (2, 0), (2, 1)]);
    assert_eq!(nearby_candidates_3d(&zones, 2), vec![(0, 2), (0, 1), (1, 0), (1, 2), (2, 0), (2, 1)]);
}

#[test]
fn candidates_reach_two_zones_when_radius_spans_them() {
    // Radius 100 and zone size 50: positions x = 0 and x = -99 lie in zones 0 and -2.
    let zones = vec![z2(0, 0), z2(-2, 0), z2(3, 0)];
    assert_eq!(nearby_candidates_2d(&zones, 1), vec![]);
    assert_eq!(nearby_candidates_2d(&zones, 2), vec![(0, 1), (1, 0)]);
    assert_eq!(nearby_candidates_2d(&zones, 5), vec![(0, 1), (0, 2), (1, 0), (1, 2), (2, 1), (2, 0)]);
}

#[test]
fn candidates_at_the_edge_of_the_grid() {
    let zones = vec![z2(i32::MIN, i32::MAX), z2(i32::MIN + 1, i32::MAX - 1)];
    assert_eq!(nearby_candidates_2d(&zones, 1), vec![(0, 1), (1, 0)]);
    let cube = vec![
        SpatialZone3D { zone_x: i32::MAX, zone_y: i32::MIN, zone_z: 0 },
        SpatialZone3D { zone_x: i32::MAX - 2, zone_y: i32::MIN, zone_z: 1 },
    ];
    assert_eq!(nearby_candidates_3d(&cube, 1), vec![]);
    assert_eq!(nearby_candidates_3d(&cube, 2), vec![(0, 1), (1, 0)]);
}

#[test]
fn test_parse_2d() {
    let p = move_command_fields("/move 1.5 2.5").unwrap();
    assert_eq!(p.x.parse::<f32>().unwrap(), 1.5);
    assert_eq!(p.y.parse::<f32>().unwrap(), 2.5);
    assert!(p.z.is_none());
}

#[test]
fn test_parse_3d() {
    let p = move_command_fields("/move 1.0 2.0 3.0").unwrap();
    assert_eq!(p.x.parse::<f32>().unwrap(), 1.0);
    assert_eq!(p.y.parse::<f32>().unwrap(), 2.0);
    assert_eq!(p.z.unwrap().parse::<f32>().unwrap(), 3.0);
}

#[test]
fn test_parse_invalid() {
    assert!(move_command_fields("/chat hello").is_none());
    let abc = move_command_fields("/move abc");
    assert!(abc.is_none());
    assert!(move_command_fields("").is_none());
}

#[test]
fn move_fields_split_on_unicode_whitespace() {
    let p = move_command_fields("\u{3000}/move\t7  -2\u{2003}9 \n").unwrap();
    assert_eq!((p.x, p.y, p.z), ("7", "-2", Some("9")));
    assert!(move_command_fields("/move 1 2 3 4").is_none());
    assert!(move_command_fields("/move 1 2 3 extra words").is_none());
    assert!(move_command_fields("/moves 1 2").is_none());
}

#[test]
fn trimming() {
    let cs = chars_of("  a b \n");
    assert_eq!(trim_range(&cs), (2, 5));
    assert!(trim_equals("\u{00A0}pong\u{2028}", "pong"));
    assert!(!trim_equals("p ong", "pong"));
    assert!(trim_equals("   ", ""));
    assert!(is_whitespace('\u{85}'));
    assert!(!is_whitespace('\u{200B}'));
    for c in ['\t', '\n', ' ', '\u{1680}', '\u{2000}', '\u{200A}', '\u{205F}', '\u{3000}', 'x', '\u{180E}'] {
        assert_eq!(is_whitespace(c), c.is_whitespace(), "{c:?}");
    }
}
