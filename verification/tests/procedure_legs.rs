use navdata_interface::enums::{AltitudeDescriptor, LegType, SpeedDescriptor};
use navdata_interface::fix::FixType;
use navdata_interface::procedure_leg::{ProcedureLeg, ProcedureLegRow};

fn base_row() -> ProcedureLegRow<f64> {
    ProcedureLegRow {
        airport_identifier: "KJFK".to_string(),
        altitude_description: None,
        altitude1: None,
        altitude2: None,
        arc_radius: None,
        center_waypoint: None,
        center_waypoint_icao_code: None,
        center_waypoint_latitude: None,
        center_waypoint_longitude: None,
        center_waypoint_ref_table: "".to_string(),
        distance_time: None,
        path_termination: first_leg_type(),
        recommended_navaid: None,
        recommended_navaid_icao_code: None,
        recommended_navaid_latitude: None,
        recommended_navaid_longitude: None,
        recommended_navaid_ref_table: "".to_string(),
        rho: None,
        rnp: None,
        route_distance_holding_distance_time: None,
        speed_limit_description: None,
        speed_limit: None,
        theta: None,
        turn_direction: None,
        vertical_angle: None,
        waypoint_description_code: None,
        waypoint_icao_code: None,
        waypoint_identifier: None,
        waypoint_latitude: None,
        waypoint_longitude: None,
        waypoint_ref_table: "".to_string(),
    }
}

fn first_leg_type() -> LegType {
    LegType::IF
}

#[test]
fn empty_row_gives_bare_leg() {
    let leg = ProcedureLeg::from_row(base_row());
    assert!(!leg.overfly);
    assert!(leg.altitude.is_none());
    assert!(leg.speed.is_none());
    assert!(leg.fix.is_none());
    assert!(leg.recommended_navaid.is_none());
    assert!(leg.arc_center_fix.is_none());
    assert!(leg.length.is_none());
    assert!(leg.length_time.is_none());
    assert!(leg.magnetic_course.is_none());
}

#[test]
fn constraints_fixes_and_measures() {
    let mut row = base_row();
    row.waypoint_description_code = Some("EY  ".to_string());
    row.altitude1 = Some(3000.0);
    row.altitude2 = Some(5000.0);
    row.speed_limit = Some(210.0);
    row.waypoint_identifier = Some("CAMRN".to_string());
    row.waypoint_icao_code = Some("K6".to_string());
    row.waypoint_latitude = Some(40.0);
    row.waypoint_longitude = Some(-73.0);
    row.waypoint_ref_table = "PC".to_string();
    row.route_distance_holding_distance_time = Some("T".to_string());
    row.distance_time = Some(1.5);
    let leg = ProcedureLeg::from_row(row);
    assert!(leg.overfly);
    let alt = leg.altitude.unwrap();
    assert_eq!(alt.altitude1, 3000.0);
    assert_eq!(alt.altitude2, Some(5000.0));
    assert_eq!(alt.descriptor, AltitudeDescriptor::AtAlt1);
    let speed = leg.speed.unwrap();
    assert_eq!(speed.value, 210.0);
    assert_eq!(speed.descriptor, SpeedDescriptor::Mandatory);
    let fix = leg.fix.unwrap();
    assert_eq!(fix.ident, "CAMRN");
    assert_eq!(fix.fix_type, FixType::Waypoint);
    assert_eq!(fix.airport_ident, Some("KJFK".to_string()));
    assert_eq!(leg.length_time, Some(1.5));
    assert_eq!(leg.length, None);
}

#[test]
fn distance_kind_gives_length() {
    let mut row = base_row();
    row.route_distance_holding_distance_time = Some("D".to_string());
    row.distance_time = Some(4.0);
    let leg = ProcedureLeg::from_row(row);
    assert_eq!(leg.length, Some(4.0));
    assert_eq!(leg.length_time, None);
}
