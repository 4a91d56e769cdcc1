use navdata_interface::airspace::{
    controlled_airspaces_warn, map_controlled_airspaces, map_restrictive_airspaces, restrictive_airspaces_warn,
    ControlledAirspaceRow, Path, PathType, RestrictiveAirspaceRow,
};
use navdata_interface::airway::{airway_rows_warn, map_airways, AirwayRow};
use navdata_interface::enums::{
    AirwayDirection, AirwayLevel, AirwayRouteType, ControlledAirspaceType, RestrictiveAirspaceType,
    TurnDirection,
};
use navdata_interface::fix::FixType;

fn airway_row(route: Option<&str>, wpt: &str, desc: Option<&str>) -> AirwayRow<f64> {
    AirwayRow {
        route_identifier: route.map(|s| s.to_string()),
        route_type: Some(AirwayRouteType::RnavAirways),
        flightlevel: Some(AirwayLevel::High),
        direction_restriction: None,
        icao_code: Some("K1".to_string()),
        waypoint_identifier: Some(wpt.to_string()),
        waypoint_latitude: Some(10.0),
        waypoint_longitude: Some(20.0),
        waypoint_ref_table: "EA".to_string(),
        waypoint_description_code: desc.map(|s| s.to_string()),
    }
}

#[test]
fn airways_split_at_end_of_route() {
    let rows = vec![
        airway_row(Some("J1"), "AAA", Some("  ")),
        airway_row(Some("J1"), "BBB", Some(" E ")),
        airway_row(Some("J2"), "CCC", None),
        airway_row(Some("J2"), "DDD", Some(" E")),
    ];
    let airways = map_airways(rows, 0.0);
    assert_eq!(airways.len(), 2);
    assert_eq!(airways[0].ident, "J1");
    assert_eq!(airways[1].ident, "J2");
    let names: Vec<&str> = airways[0].fixes.iter().map(|f| f.ident.as_str()).collect();
    assert_eq!(names, vec!["AAA", "BBB"]);
    let names: Vec<&str> = airways[1].fixes.iter().map(|f| f.ident.as_str()).collect();
    assert_eq!(names, vec!["CCC", "DDD"]);
    assert_eq!(airways[0].route_type, AirwayRouteType::RnavAirways);
    assert_eq!(airways[0].level, AirwayLevel::High);
    assert_eq!(airways[0].fixes[0].fix_type, FixType::Waypoint);
}

#[test]
fn airway_fields_default_when_missing() {
    let mut row = airway_row(None, "X", Some(" E"));
    row.route_type = None;
    row.flightlevel = None;
    row.icao_code = None;
    row.waypoint_identifier = None;
    row.waypoint_latitude = None;
    row.direction_restriction = Some(AirwayDirection::Forward);
    let airways = map_airways(vec![row], -1.0);
    assert_eq!(airways.len(), 1);
    assert_eq!(airways[0].ident, "ERROR");
    assert_eq!(airways[0].route_type, AirwayRouteType::Unknown);
    assert_eq!(airways[0].level, AirwayLevel::Unknown);
    assert_eq!(airways[0].direction, Some(AirwayDirection::Forward));
    assert_eq!(airways[0].fixes[0].ident, "UNKN");
    assert_eq!(airways[0].fixes[0].icao_code, "UNKN");
    assert_eq!(airways[0].fixes[0].location.lat, -1.0);
    assert_eq!(airways[0].fixes[0].location.long, 20.0);
}

#[test]
fn airways_keep_every_row_as_a_fix() {
    let rows = vec![
        airway_row(Some("A1"), "P1", Some(" E")),
        airway_row(Some("A2"), "P2", None),
        airway_row(Some("A2"), "P3", Some(" E")),
        airway_row(Some("A3"), "P4", None),
    ];
    let airways = map_airways(rows, 0.0);
    // Two rows close an airway before the last row: three airways.
    assert_eq!(airways.len(), 3);
    let all: Vec<String> = airways.iter().flat_map(|a| a.fixes.iter().map(|f| f.ident.clone())).collect();
    assert_eq!(all, vec!["P1", "P2", "P3", "P4"]);
    assert!(airways.iter().all(|a| !a.fixes.is_empty()));
}

#[test]
fn path_from_boundary_codes() {
    let (p, err) = Path::from_data(Some(1.0), Some(2.0), Some(3.0), Some(4.0), Some(5.0), Some(6.0), "C ".to_string(), 0.0);
    assert_eq!(p.path_type, PathType::Circle);
    assert_eq!((p.location.lat, p.location.long), (3.0, 4.0));
    assert!(p.arc.is_none());
    assert!(!err);

    let (p, _) = Path::from_data(Some(1.0), Some(2.0), None, None, None, None, "G".to_string(), 0.0);
    assert_eq!(p.path_type, PathType::GreatCircle);
    assert_eq!((p.location.lat, p.location.long), (1.0, 2.0));
    let (p, _) = Path::from_data(Some(1.0), Some(2.0), None, None, None, None, "HE".to_string(), 0.0);
    assert_eq!(p.path_type, PathType::RhumbLine);

    let (p, err) = Path::from_data(Some(1.0), Some(2.0), Some(3.0), Some(4.0), Some(5.0), Some(6.0), "R".to_string(), 0.0);
    assert_eq!(p.path_type, PathType::Arc);
    let arc = p.arc.unwrap();
    assert_eq!(arc.direction, TurnDirection::Right);
    assert_eq!((arc.origin.lat, arc.origin.long, arc.distance, arc.bearing), (3.0, 4.0, 5.0, 6.0));
    assert!(!err);
    let (p, err) = Path::from_data(Some(1.0), Some(2.0), Some(3.0), Some(4.0), None, Some(6.0), "L".to_string(), 0.0);
    assert_eq!(p.arc.unwrap().direction, TurnDirection::Left);
    assert_eq!(p.arc.unwrap().distance, 0.0);
    assert!(err);

    let (p, err) = Path::from_data(Some(1.0), Some(2.0), None, None, None, None, "X".to_string(), 9.0);
    assert_eq!(p.path_type, PathType::Unknown);
    assert_eq!((p.location.lat, p.location.long), (9.0, 9.0));
    assert!(err);
}

fn controlled_row(name: Option<&str>, via: &str) -> ControlledAirspaceRow<f64> {
    ControlledAirspaceRow {
        area_code: "USA".to_string(),
        icao_code: "K2".to_string(),
        airspace_center: "KJFK".to_string(),
        controlled_airspace_name: name.map(|s| s.to_string()),
        airspace_type: ControlledAirspaceType::ClassB,
        boundary_via: via.to_string(),
        latitude: Some(1.0),
        longitude: Some(2.0),
        arc_origin_latitude: None,
        arc_origin_longitude: None,
        arc_distance: None,
        arc_bearing: None,
    }
}

#[test]
fn controlled_airspaces_group_until_closed() {
    let rows = vec![
        controlled_row(Some("NEW YORK"), "G"),
        controlled_row(None, "GE"),
        controlled_row(Some("BOSTON"), "H"),
        controlled_row(None, "HE"),
    ];
    let a = map_controlled_airspaces(rows, 0.0);
    assert_eq!(a.len(), 2);
    assert_eq!(a[0].name, "NEW YORK");
    assert_eq!(a[0].boundary_paths.len(), 2);
    assert_eq!(a[1].name, "BOSTON");
    assert_eq!(a[1].boundary_paths.len(), 2);
    assert_eq!(a[1].boundary_paths[0].path_type, PathType::RhumbLine);
    assert_eq!(a[0].airspace_center, "KJFK");
}

#[test]
fn unnamed_opening_row_is_skipped() {
    let rows = vec![
        controlled_row(None, "G"),
        controlled_row(Some("A"), "GE"),
        controlled_row(None, "G"),
        controlled_row(None, "GE"),
    ];
    let a = map_controlled_airspaces(rows, 0.0);
    // The first row is skipped; the second opens and closes airspace A; the
    // third is skipped; the fourth continues airspace A.
    assert_eq!(a.len(), 1);
    assert_eq!(a[0].name, "A");
    assert_eq!(a[0].boundary_paths.len(), 2);
}

#[test]
fn restrictive_airspaces_keep_designation() {
    let row = |name: Option<&str>, via: &str| RestrictiveAirspaceRow {
        area_code: "EUR".to_string(),
        icao_code: "ED".to_string(),
        restrictive_airspace_designation: "R123".to_string(),
        restrictive_airspace_name: name.map(|s| s.to_string()),
        restrictive_type: RestrictiveAirspaceType::Restricted,
        boundary_via: via.to_string(),
        latitude: Some(1.0),
        longitude: Some(2.0),
        arc_origin_latitude: Some(3.0),
        arc_origin_longitude: Some(4.0),
        arc_distance: Some(5.0),
        arc_bearing: Some(6.0),
    };
    let a = map_restrictive_airspaces(vec![row(Some("ZONE"), "CE"), row(Some("OTHER"), "GE")], 0.0);
    assert_eq!(a.len(), 2);
    assert_eq!(a[0].designation, "R123");
    assert_eq!(a[0].airspace_type, RestrictiveAirspaceType::Restricted);
    assert_eq!(a[0].boundary_paths[0].path_type, PathType::Circle);
    assert_eq!(a[1].name, "OTHER");
}

#[test]
fn airway_warning_on_missing_values() {
    let good = vec![airway_row(Some("J1"), "AAA", Some(" E")), airway_row(Some("J2"), "BBB", Some(" E"))];
    assert!(!airway_rows_warn(&good));
    // A missing airway identifier counts only on a row that starts an airway.
    let continuing = vec![airway_row(Some("J1"), "AAA", None), airway_row(None, "BBB", Some(" E"))];
    assert!(!airway_rows_warn(&continuing));
    let starting = vec![airway_row(Some("J1"), "AAA", Some(" E")), airway_row(None, "BBB", Some(" E"))];
    assert!(airway_rows_warn(&starting));
    let mut no_position = airway_row(Some("J1"), "AAA", None);
    no_position.waypoint_longitude = None;
    assert!(airway_rows_warn(&vec![airway_row(Some("J1"), "X", None), no_position]));
    let mut no_region = airway_row(Some("J1"), "AAA", None);
    no_region.icao_code = None;
    assert!(airway_rows_warn(&vec![no_region]));
    assert!(!airway_rows_warn(&Vec::<AirwayRow<f64>>::new()));
}

#[test]
fn airspace_warning_follows_last_assembled_row() {
    let mut bad = controlled_row(Some("A"), "G");
    bad.latitude = None;
    // The error of an earlier row is overwritten by a later good row.
    assert!(!controlled_airspaces_warn(&vec![bad, controlled_row(None, "GE")], 0.0));
    let mut bad_last = controlled_row(None, "GE");
    bad_last.longitude = None;
    assert!(controlled_airspaces_warn(&vec![controlled_row(Some("A"), "G"), bad_last], 0.0));
    // A skipped row keeps the flag of the row before it.
    let mut bad_closing = controlled_row(Some("A"), "GE");
    bad_closing.latitude = None;
    assert!(controlled_airspaces_warn(&vec![bad_closing, controlled_row(None, "G")], 0.0));
    assert!(controlled_airspaces_warn(&vec![controlled_row(Some("A"), "X")], 0.0));
    assert!(!controlled_airspaces_warn(&vec![controlled_row(Some("A"), "GE")], 0.0));
    let row = |via: &str, distance: Option<f64>| RestrictiveAirspaceRow {
        area_code: "EUR".to_string(),
        icao_code: "ED".to_string(),
        restrictive_airspace_designation: "R1".to_string(),
        restrictive_airspace_name: Some("ZONE".to_string()),
        restrictive_type: RestrictiveAirspaceType::Restricted,
        boundary_via: via.to_string(),
        latitude: Some(1.0),
        longitude: Some(2.0),
        arc_origin_latitude: Some(3.0),
        arc_origin_longitude: Some(4.0),
        arc_distance: distance,
        arc_bearing: Some(6.0),
    };
    assert!(restrictive_airspaces_warn(&vec![row("RE", None)], 0.0));
    assert!(!restrictive_airspaces_warn(&vec![row("RE", Some(5.0))], 0.0));
    assert!(!restrictive_airspaces_warn(&vec![row("GE", None)], 0.0));
}
