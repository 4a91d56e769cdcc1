use vstd::prelude::*;

use crate::enums::{CommunicationType, FrequencyUnits, RunwayLights, RunwaySurface, TrafficPattern};
use crate::fix::Coordinates;
use crate::procedure::opt_view;

verus! {

// Database rows of single records and the records made from them. `D` is
// the type of a measured value (degrees, feet, frequencies, miles).

/// The text that stands in for a missing region code or identifier.
pub open spec fn unknown_text() -> Seq<char> {
    seq!['U', 'N', 'K', 'N']
}

pub open spec fn text_or_unknown(o: Option<String>) -> Seq<char> {
    match o {
        Some(s) => s@,
        None => unknown_text(),
    }
}

pub open spec fn or_value<D>(o: Option<D>, d: D) -> D {
    match o {
        Some(v) => v,
        None => d,
    }
}

fn unknown_string() -> (res: String)
    ensures
        res@ == unknown_text(),
{
    let s = String::from_str("UNKN");
    proof {
        reveal_strlit("UNKN");
    }
    s
}

fn string_or_unknown(o: Option<String>) -> (res: String)
    ensures
        res@ == text_or_unknown(o),
{
    match o {
        Some(s) => s,
        None => unknown_string(),
    }
}

fn value_or<D: Copy>(o: Option<D>, d: D) -> (res: D)
    ensures
        res == or_value(o, d),
{
    match o {
        Some(v) => v,
        None => d,
    }
}

/// A runway row.
pub struct RunwayRow<D> {
    pub airport_identifier: String,
    pub runway_identifier: String,
    pub icao_code: Option<String>,
    pub runway_length: D,
    pub runway_width: D,
    pub runway_true_bearing: Option<D>,
    pub runway_magnetic_bearing: Option<D>,
    pub runway_gradient: Option<D>,
    pub runway_latitude: Option<D>,
    pub runway_longitude: Option<D>,
    pub landing_threshold_elevation: D,
    pub surface_code: Option<RunwaySurface>,
    pub traffic_pattern: Option<TrafficPattern>,
    pub runway_lights: Option<RunwayLights>,
}

/// The landing threshold of a runway.
pub struct RunwayThreshold<D> {
    /// The identifier of the runway, such as `RW18L`.
    pub ident: String,
    pub icao_code: String,
    pub length: D,
    pub width: D,
    pub true_bearing: D,
    pub magnetic_bearing: D,
    pub gradient: D,
    pub location: Coordinates<D>,
    pub elevation: D,
    pub lights: Option<RunwayLights>,
    pub surface: Option<RunwaySurface>,
    pub traffic_pattern: Option<TrafficPattern>,
}

impl<D: Copy> RunwayThreshold<D> {
    /// The threshold a runway row describes; a missing region code reads
    /// `UNKN` and a missing bearing, gradient or position `zero`.
    pub fn from_row(runway: RunwayRow<D>, zero: D) -> (res: Self)
        ensures
            res.ident@ == runway.runway_identifier@,
            res.icao_code@ == text_or_unknown(runway.icao_code),
            res.length == runway.runway_length,
            res.width == runway.runway_width,
            res.true_bearing == or_value(runway.runway_true_bearing, zero),
            res.magnetic_bearing == or_value(runway.runway_magnetic_bearing, zero),
            res.gradient == or_value(runway.runway_gradient, zero),
            res.location == (Coordinates {
                lat: or_value(runway.runway_latitude, zero),
                long: or_value(runway.runway_longitude, zero),
            }),
            res.elevation == runway.landing_threshold_elevation,
            res.lights == runway.runway_lights,
            res.surface == runway.surface_code,
            res.traffic_pattern == runway.traffic_pattern,
    {
        RunwayThreshold {
            ident: runway.runway_identifier,
            icao_code: string_or_unknown(runway.icao_code),
            length: runway.runway_length,
            width: runway.runway_width,
            true_bearing: value_or(runway.runway_true_bearing, zero),
            magnetic_bearing: value_or(runway.runway_magnetic_bearing, zero),
            gradient: value_or(runway.runway_gradient, zero),
            location: Coordinates {
                lat: value_or(runway.runway_latitude, zero),
                long: value_or(runway.runway_longitude, zero),
            },
            elevation: runway.landing_threshold_elevation,
            lights: runway.runway_lights,
            surface: runway.surface_code,
            traffic_pattern: runway.traffic_pattern,
        }
    }
}

/// A runway row is reported as malformed when its region code, a bearing or
/// its position is missing (a missing gradient is not reported).
pub open spec fn runway_row_malformed<D>(runway: RunwayRow<D>) -> bool {
    ||| runway.icao_code is None
    ||| runway.runway_true_bearing is None
    ||| runway.runway_magnetic_bearing is None
    ||| runway.runway_latitude is None
    ||| runway.runway_longitude is None
}

/// Whether converting the row into a threshold reports the row as malformed.
pub fn runway_row_warns<D>(runway: &RunwayRow<D>) -> (res: bool)
    ensures
        res == runway_row_malformed(*runway),
{
    runway.icao_code.is_none() || runway.runway_true_bearing.is_none()
        || runway.runway_magnetic_bearing.is_none() || runway.runway_latitude.is_none()
        || runway.runway_longitude.is_none()
}

/// An NDB navaid row.
pub struct NdbNavaidRow<D> {
    pub area_code: String,
    pub airport_identifier: Option<String>,
    pub icao_code: Option<String>,
    pub navaid_identifier: Option<String>,
    pub navaid_name: String,
    pub navaid_frequency: D,
    pub navaid_latitude: Option<D>,
    pub navaid_longitude: Option<D>,
    pub continent: Option<String>,
    pub country: Option<String>,
    pub datum_code: Option<String>,
    pub range: Option<D>,
}

/// A non-directional beacon.
pub struct NdbNavaid<D> {
    pub area_code: String,
    pub continent: Option<String>,
    pub country: Option<String>,
    pub datum_code: Option<String>,
    pub airport_ident: Option<String>,
    pub icao_code: String,
    pub ident: String,
    pub name: String,
    pub frequency: D,
    pub location: Coordinates<D>,
    pub range: Option<D>,
}

impl<D: Copy> NdbNavaid<D> {
    /// The navaid an NDB row describes; a missing region code or identifier
    /// reads `UNKN` and a missing position `zero`.
    pub fn from_row(navaid: NdbNavaidRow<D>, zero: D) -> (res: Self)
        ensures
            res.area_code@ == navaid.area_code@,
            opt_view(res.airport_ident) == opt_view(navaid.airport_identifier),
            res.icao_code@ == text_or_unknown(navaid.icao_code),
            res.ident@ == text_or_unknown(navaid.navaid_identifier),
            res.name@ == navaid.navaid_name@,
            res.frequency == navaid.navaid_frequency,
            res.location == (Coordinates {
                lat: or_value(navaid.navaid_latitude, zero),
                long: or_value(navaid.navaid_longitude, zero),
            }),
            opt_view(res.continent) == opt_view(navaid.continent),
            opt_view(res.country) == opt_view(navaid.country),
            opt_view(res.datum_code) == opt_view(navaid.datum_code),
            res.range == navaid.range,
    {
        NdbNavaid {
            area_code: navaid.area_code,
            airport_ident: navaid.airport_identifier,
            icao_code: string_or_unknown(navaid.icao_code),
            ident: string_or_unknown(navaid.navaid_identifier),
            name: navaid.navaid_name,
            frequency: navaid.navaid_frequency,
            location: Coordinates {
                lat: value_or(navaid.navaid_latitude, zero),
                long: value_or(navaid.navaid_longitude, zero),
            },
            continent: navaid.continent,
            country: navaid.country,
            datum_code: navaid.datum_code,
            range: navaid.range,
        }
    }
}

/// An NDB row is reported as malformed when its region code, its identifier
/// or its position is missing.
pub open spec fn ndb_row_malformed<D>(navaid: NdbNavaidRow<D>) -> bool {
    ||| navaid.icao_code is None
    ||| navaid.navaid_identifier is None
    ||| navaid.navaid_latitude is None
    ||| navaid.navaid_longitude is None
}

/// Whether converting the row into a navaid reports the row as malformed.
pub fn ndb_row_warns<D>(navaid: &NdbNavaidRow<D>) -> (res: bool)
    ensures
        res == ndb_row_malformed(*navaid),
{
    navaid.icao_code.is_none() || navaid.navaid_identifier.is_none() || navaid.navaid_latitude.is_none()
        || navaid.navaid_longitude.is_none()
}

/// A VHF navaid row.
pub struct VhfNavaidRow<D> {
    pub area_code: String,
    pub airport_identifier: Option<String>,
    pub icao_code: Option<String>,
    pub navaid_identifier: String,
    pub navaid_name: String,
    pub navaid_frequency: D,
    pub navaid_latitude: Option<D>,
    pub navaid_longitude: Option<D>,
    pub dme_latitude: Option<D>,
    pub dme_longitude: Option<D>,
    pub station_declination: Option<D>,
    pub continent: Option<String>,
    pub country: Option<String>,
    pub magnetic_variation: Option<D>,
    pub range: Option<D>,
    pub datum_code: Option<String>,
}

/// A VHF navaid (VOR, DME, TACAN).
pub struct VhfNavaid<D> {
    pub area_code: String,
    pub continent: Option<String>,
    pub country: Option<String>,
    pub datum_code: Option<String>,
    pub airport_ident: Option<String>,
    pub icao_code: String,
    pub ident: String,
    pub name: String,
    pub frequency: D,
    pub location: Coordinates<D>,
    pub station_declination: Option<D>,
    pub magnetic_variation: Option<D>,
    pub range: Option<D>,
}

/// The position value of a navaid: its own, else its DME's, else `zero`.
pub open spec fn navaid_or_dme<D>(navaid: Option<D>, dme: Option<D>, zero: D) -> D {
    match navaid {
        Some(v) => v,
        None => or_value(dme, zero),
    }
}

impl<D: Copy> VhfNavaid<D> {
    /// The navaid a VHF row describes; a missing region code reads `UNKN`,
    /// and a missing position is that of the DME, or `zero`.
    pub fn from_row(navaid: VhfNavaidRow<D>, zero: D) -> (res: Self)
        ensures
            res.area_code@ == navaid.area_code@,
            opt_view(res.airport_ident) == opt_view(navaid.airport_identifier),
            res.icao_code@ == text_or_unknown(navaid.icao_code),
            res.ident@ == navaid.navaid_identifier@,
            res.name@ == navaid.navaid_name@,
            res.frequency == navaid.navaid_frequency,
            res.location == (Coordinates {
                lat: navaid_or_dme(navaid.navaid_latitude, navaid.dme_latitude, zero),
                long: navaid_or_dme(navaid.navaid_longitude, navaid.dme_longitude, zero),
            }),
            res.station_declination == navaid.station_declination,
            opt_view(res.continent) == opt_view(navaid.continent),
            opt_view(res.country) == opt_view(navaid.country),
            res.magnetic_variation == navaid.magnetic_variation,
            res.range == navaid.range,
            opt_view(res.datum_code) == opt_view(navaid.datum_code),
    {
        let lat = match navaid.navaid_latitude {
            Some(v) => v,
            None => value_or(navaid.dme_latitude, zero),
        };
        let long = match navaid.navaid_longitude {
            Some(v) => v,
            None => value_or(navaid.dme_longitude, zero),
        };
        VhfNavaid {
            area_code: navaid.area_code,
            airport_ident: navaid.airport_identifier,
            icao_code: string_or_unknown(navaid.icao_code),
            ident: navaid.navaid_identifier,
            name: navaid.navaid_name,
            frequency: navaid.navaid_frequency,
            location: Coordinates { lat, long },
            station_declination: navaid.station_declination,
            continent: navaid.continent,
            country: navaid.country,
            magnetic_variation: navaid.magnetic_variation,
            range: navaid.range,
            datum_code: navaid.datum_code,
        }
    }
}

/// A VHF row is reported as malformed when its region code is missing, or a
/// coordinate is missing both for the navaid and for its DME.
pub open spec fn vhf_row_malformed<D>(navaid: VhfNavaidRow<D>) -> bool {
    ||| navaid.icao_code is None
    ||| navaid.navaid_latitude is None && navaid.dme_latitude is None
    ||| navaid.navaid_longitude is None && navaid.dme_longitude is None
}

/// Whether converting the row into a navaid reports the row as malformed.
pub fn vhf_row_warns<D>(navaid: &VhfNavaidRow<D>) -> (res: bool)
    ensures
        res == vhf_row_malformed(*navaid),
{
    navaid.icao_code.is_none() || (navaid.navaid_latitude.is_none() && navaid.dme_latitude.is_none())
        || (navaid.navaid_longitude.is_none() && navaid.dme_longitude.is_none())
}

/// A waypoint row.
pub struct WaypointRow<D> {
    pub area_code: String,
    pub region_code: Option<String>,
    pub icao_code: Option<String>,
    pub waypoint_identifier: String,
    pub waypoint_name: String,
    pub waypoint_latitude: D,
    pub waypoint_longitude: D,
    pub continent: Option<String>,
    pub country: Option<String>,
    pub magnetic_varation: Option<D>,
    pub datum_code: Option<String>,
}

/// An enroute or terminal waypoint.
pub struct Waypoint<D> {
    pub area_code: String,
    pub continent: Option<String>,
    pub country: Option<String>,
    pub datum_code: Option<String>,
    /// The airport of a terminal waypoint (the row's region code).
    pub airport_ident: Option<String>,
    pub icao_code: String,
    pub ident: String,
    pub name: String,
    pub location: Coordinates<D>,
    pub magnetic_variation: Option<D>,
}

impl<D: Copy> Waypoint<D> {
    /// The waypoint a row describes; a missing region code reads `UNKN`.
    pub fn from_row(waypoint: WaypointRow<D>) -> (res: Self)
        ensures
            res.area_code@ == waypoint.area_code@,
            opt_view(res.airport_ident) == opt_view(waypoint.region_code),
            res.icao_code@ == text_or_unknown(waypoint.icao_code),
            res.ident@ == waypoint.waypoint_identifier@,
            res.name@ == waypoint.waypoint_name@,
            res.location == (Coordinates { lat: waypoint.waypoint_latitude, long: waypoint.waypoint_longitude }),
            opt_view(res.continent) == opt_view(waypoint.continent),
            opt_view(res.country) == opt_view(waypoint.country),
            res.magnetic_variation == waypoint.magnetic_varation,
            opt_view(res.datum_code) == opt_view(waypoint.datum_code),
    {
        Waypoint {
            area_code: waypoint.area_code,
            airport_ident: waypoint.region_code,
            icao_code: string_or_unknown(waypoint.icao_code),
            ident: waypoint.waypoint_identifier,
            name: waypoint.waypoint_name,
            location: Coordinates { lat: waypoint.waypoint_latitude, long: waypoint.waypoint_longitude },
            continent: waypoint.continent,
            country: waypoint.country,
            magnetic_variation: waypoint.magnetic_varation,
            datum_code: waypoint.datum_code,
        }
    }
}

/// A gate row.
pub struct GateRow<D> {
    pub area_code: String,
    pub icao_code: String,
    pub gate_identifier: String,
    pub gate_latitude: D,
    pub gate_longitude: D,
    pub name: Option<String>,
}

/// A gate of an airport.
pub struct Gate<D> {
    pub area_code: String,
    pub icao_code: String,
    pub ident: String,
    pub location: Coordinates<D>,
    pub name: String,
}

/// The name of a gate that has none.
pub open spec fn no_name_text() -> Seq<char> {
    seq!['N', '/', 'A']
}

impl<D: Copy> Gate<D> {
    /// Builds a gate from its row; a nameless gate takes the name `no_name_text`.
    pub fn from_row(row: GateRow<D>) -> (res: Self)
        ensures
            res.area_code@ == row.area_code@,
            res.icao_code@ == row.icao_code@,
            res.ident@ == row.gate_identifier@,
            res.location == (Coordinates { lat: row.gate_latitude, long: row.gate_longitude }),
            res.name@ == (match row.name {
                Some(n) => n@,
                None => no_name_text(),
            }),
    {
        let name = match row.name {
            Some(n) => n,
            None => {
                let s = String::from_str("N/A");
                proof {
                    reveal_strlit("N/A");
                }
                s
            },
        };
        Gate {
            area_code: row.area_code,
            icao_code: row.icao_code,
            ident: row.gate_identifier,
            location: Coordinates { lat: row.gate_latitude, long: row.gate_longitude },
            name,
        }
    }
}

/// A communication frequency row of an airport or of an enroute (FIR)
/// station.
pub struct CommunicationRow<D> {
    pub area_code: String,
    pub communication_type: CommunicationType,
    /// The airport of an airport frequency.
    pub airport_identifier: Option<String>,
    /// The FIR or UIR of an enroute frequency.
    pub fir_rdo_ident: Option<String>,
    pub communication_frequency: D,
    pub frequency_units: FrequencyUnits,
    pub callsign: Option<String>,
    pub latitude: D,
    pub longitude: D,
}

/// A communication frequency.
pub struct Communication<D> {
    pub area_code: String,
    pub communication_type: CommunicationType,
    pub airport_ident: Option<String>,
    pub fir_rdo_ident: Option<String>,
    pub frequency: D,
    pub frequency_units: FrequencyUnits,
    pub callsign: Option<String>,
    pub name: Option<String>,
    pub location: Coordinates<D>,
}

impl<D: Copy> Communication<D> {
    /// The frequency a row describes: an airport frequency carries its
    /// airport, an enroute one its FIR; neither has a name.
    pub fn from_row(row: CommunicationRow<D>) -> (res: Self)
        ensures
            res.area_code@ == row.area_code@,
            res.communication_type == row.communication_type,
            opt_view(res.airport_ident) == opt_view(row.airport_identifier),
            opt_view(res.fir_rdo_ident) == opt_view(row.fir_rdo_ident),
            res.frequency == row.communication_frequency,
            res.frequency_units == row.frequency_units,
            opt_view(res.callsign) == opt_view(row.callsign),
            res.name is None,
            res.location == (Coordinates { lat: row.latitude, long: row.longitude }),
    {
        Communication {
            area_code: row.area_code,
            communication_type: row.communication_type,
            airport_ident: row.airport_identifier,
            fir_rdo_ident: row.fir_rdo_ident,
            frequency: row.communication_frequency,
            frequency_units: row.frequency_units,
            callsign: row.callsign,
            name: None,
            location: Coordinates { lat: row.latitude, long: row.longitude },
        }
    }
}

} // verus!
