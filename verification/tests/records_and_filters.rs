use navdata_interface::airway::{airways_at_fix, map_airways, map_airways_v2, AirwayRow};
use navdata_interface::enums::{AirwayLevel, AirwayRouteType, CommunicationType, FrequencyUnits};
use navdata_interface::records::{
    ndb_row_warns, runway_row_warns, vhf_row_warns, Communication, CommunicationRow, Gate, GateRow, NdbNavaid,
    NdbNavaidRow, RunwayRow, RunwayThreshold, VhfNavaid, VhfNavaidRow, Waypoint, WaypointRow,
};
use navdata_interface::util::{is_sqlite_header, path_exists, path_type_of, PathType};

fn row(route: &str, wpt: &str, icao: Option<&str>, end: bool) -> AirwayRow<f64> {
    AirwayRow {
        route_identifier: Some(route.to_string()),
        route_type: None,
        flightlevel: None,
        direction_restriction: None,
        icao_code: icao.map(|s| s.to_string()),
        waypoint_identifier: Some(wpt.to_string()),
        waypoint_latitude: Some(1.0),
        waypoint_longitude: Some(2.0),
        waypoint_ref_table: "EA".to_string(),
        waypoint_description_code: Some(if end { " E" } else { "  " }.to_string()),
    }
}

#[test]
fn airways_through_a_fix() {
    let rows = vec![
        row("A1", "FIX1", Some("K1"), false),
        row("A1", "FIX2", Some("K1"), true),
        row("A2", "FIX2", Some("K2"), false),
        row("A2", "FIX3", Some("K1"), true),
        row("A3", "FIX2", Some("K1"), true),
    ];
    let airways = map_airways(rows, 0.0);
    let kept = airways_at_fix(airways, "FIX2", "K1");
    let ids: Vec<&str> = kept.iter().map(|a| a.ident.as_str()).collect();
    assert_eq!(ids, vec!["A1", "A3"]);
}

#[test]
fn second_format_defaults() {
    let airways = map_airways_v2(vec![row("B1", "X", None, true)], 0.0);
    assert_eq!(airways[0].route_type, AirwayRouteType::UndesignatedAtsRoute);
    assert_eq!(airways[0].level, AirwayLevel::Both);
    assert_eq!(airways[0].fixes[0].icao_code, "NULL");
    let airways = map_airways(vec![row("B1", "X", None, true)], 0.0);
    assert_eq!(airways[0].route_type, AirwayRouteType::Unknown);
    assert_eq!(airways[0].fixes[0].icao_code, "UNKN");
}

#[test]
fn runway_threshold_defaults() {
    let r = RunwayThreshold::from_row(
        RunwayRow {
            airport_identifier: "KJFK".to_string(),
            runway_identifier: "RW04L".to_string(),
            icao_code: None,
            runway_length: 12000.0,
            runway_width: 200.0,
            runway_true_bearing: Some(31.0),
            runway_magnetic_bearing: None,
            runway_gradient: None,
            runway_latitude: Some(40.6),
            runway_longitude: None,
            landing_threshold_elevation: 12.0,
            surface_code: None,
            traffic_pattern: None,
            runway_lights: None,
        },
        0.0,
    );
    assert_eq!(r.ident, "RW04L");
    assert_eq!(r.icao_code, "UNKN");
    assert_eq!(r.true_bearing, 31.0);
    assert_eq!(r.magnetic_bearing, 0.0);
    assert_eq!(r.gradient, 0.0);
    assert_eq!((r.location.lat, r.location.long), (40.6, 0.0));
    assert_eq!(r.elevation, 12.0);
}

#[test]
fn navaid_records() {
    let ndb = NdbNavaid::from_row(
        NdbNavaidRow {
            area_code: "USA".to_string(),
            airport_identifier: None,
            icao_code: Some("K6".to_string()),
            navaid_identifier: None,
            navaid_name: "BEACON".to_string(),
            navaid_frequency: 338.0,
            navaid_latitude: None,
            navaid_longitude: Some(3.0),
            continent: None,
            country: None,
            datum_code: None,
            range: Some(25.0),
        },
        -1.0,
    );
    assert_eq!(ndb.ident, "UNKN");
    assert_eq!(ndb.icao_code, "K6");
    assert_eq!((ndb.location.lat, ndb.location.long), (-1.0, 3.0));
    let vhf = VhfNavaid::from_row(
        VhfNavaidRow {
            area_code: "USA".to_string(),
            airport_identifier: None,
            icao_code: None,
            navaid_identifier: "JFK".to_string(),
            navaid_name: "KENNEDY".to_string(),
            navaid_frequency: 115.9,
            navaid_latitude: None,
            navaid_longitude: Some(-73.8),
            dme_latitude: Some(40.6),
            dme_longitude: Some(-73.7),
            station_declination: None,
            continent: None,
            country: None,
            magnetic_variation: None,
            range: None,
            datum_code: None,
        },
        0.0,
    );
    assert_eq!((vhf.location.lat, vhf.location.long), (40.6, -73.8));
    assert_eq!(vhf.icao_code, "UNKN");
}

#[test]
fn waypoint_gate_and_frequency_records() {
    let w = Waypoint::from_row(WaypointRow {
        area_code: "USA".to_string(),
        region_code: Some("KJFK".to_string()),
        icao_code: None,
        waypoint_identifier: "CAMRN".to_string(),
        waypoint_name: "CAMRN".to_string(),
        waypoint_latitude: 40.0,
        waypoint_longitude: -73.0,
        continent: None,
        country: None,
        magnetic_varation: Some(-13.0),
        datum_code: None,
    });
    assert_eq!(w.airport_ident, Some("KJFK".to_string()));
    assert_eq!(w.icao_code, "UNKN");
    let g = Gate::from_row(GateRow {
        area_code: "USA".to_string(),
        icao_code: "K6".to_string(),
        gate_identifier: "A1".to_string(),
        gate_latitude: 1.0,
        gate_longitude: 2.0,
        name: None,
    });
    assert_eq!(g.name, "N/A");
    let c = Communication::from_row(CommunicationRow {
        area_code: "USA".to_string(),
        communication_type: CommunicationType::Tower,
        airport_identifier: Some("KJFK".to_string()),
        fir_rdo_ident: None,
        communication_frequency: 119.1,
        frequency_units: FrequencyUnits::VeryHigh,
        callsign: Some("KENNEDY TOWER".to_string()),
        latitude: 1.0,
        longitude: 2.0,
    });
    assert_eq!(c.airport_ident, Some("KJFK".to_string()));
    assert!(c.name.is_none());
}

#[test]
fn path_kinds_and_sqlite_header() {
    assert_eq!(path_type_of(true, true), PathType::Directory);
    assert_eq!(path_type_of(false, true), PathType::File);
    assert_eq!(path_type_of(false, false), PathType::DoesNotExist);
    assert!(path_exists(PathType::File));
    assert!(!path_exists(PathType::DoesNotExist));
    assert!(is_sqlite_header(b"SQLite format 3\0"));
    assert!(!is_sqlite_header(b"SQLite format 2\0"));
}

fn runway_row() -> RunwayRow<f64> {
    RunwayRow {
        airport_identifier: "KJFK".to_string(),
        runway_identifier: "RW04L".to_string(),
        icao_code: Some("K6".to_string()),
        runway_length: 12000.0,
        runway_width: 200.0,
        runway_true_bearing: Some(31.0),
        runway_magnetic_bearing: Some(44.0),
        runway_gradient: None,
        runway_latitude: Some(40.6),
        runway_longitude: Some(-73.8),
        landing_threshold_elevation: 12.0,
        surface_code: None,
        traffic_pattern: None,
        runway_lights: None,
    }
}

fn vhf_row() -> VhfNavaidRow<f64> {
    VhfNavaidRow {
        area_code: "USA".to_string(),
        airport_identifier: None,
        icao_code: Some("K6".to_string()),
        navaid_identifier: "JFK".to_string(),
        navaid_name: "KENNEDY".to_string(),
        navaid_frequency: 115.9,
        navaid_latitude: None,
        navaid_longitude: Some(-73.8),
        dme_latitude: Some(40.6),
        dme_longitude: None,
        station_declination: None,
        continent: None,
        country: None,
        magnetic_variation: None,
        range: None,
        datum_code: None,
    }
}

#[test]
fn record_rows_that_warn() {
    // A missing gradient is not reported; a missing bearing or position is.
    assert!(!runway_row_warns(&runway_row()));
    let mut r = runway_row();
    r.runway_magnetic_bearing = None;
    assert!(runway_row_warns(&r));
    let mut r = runway_row();
    r.icao_code = None;
    assert!(runway_row_warns(&r));

    let ndb = |ident: Option<&str>| NdbNavaidRow {
        area_code: "USA".to_string(),
        airport_identifier: None,
        icao_code: Some("K6".to_string()),
        navaid_identifier: ident.map(|s| s.to_string()),
        navaid_name: "BEACON".to_string(),
        navaid_frequency: 338.0,
        navaid_latitude: Some(1.0),
        navaid_longitude: Some(3.0),
        continent: None,
        country: None,
        datum_code: None,
        range: None,
    };
    assert!(!ndb_row_warns(&ndb(Some("AB"))));
    assert!(ndb_row_warns(&ndb(None)));

    // Each coordinate comes from the navaid or else from its DME.
    assert!(!vhf_row_warns(&vhf_row()));
    let mut v = vhf_row();
    v.dme_latitude = None;
    assert!(vhf_row_warns(&v));
    let mut v = vhf_row();
    v.icao_code = None;
    assert!(vhf_row_warns(&v));
}
