use vstd::prelude::*;

use crate::enums::{AltitudeDescriptor, LegType, SpeedDescriptor, TurnDirection};
use crate::fix::{fix_type_of_table, fix_view, Coordinates, Fix, FixView};
use crate::procedure::opt_view;
use crate::text::{char_at_is, has_char_at, is_char_string, is_single_char};

verus! {

/// An altitude constraint of a leg. `D` is the type of an altitude.
#[derive(Clone, Copy, Debug)]
pub struct AltitudeContstraint<D> {
    pub altitude1: D,
    pub altitude2: Option<D>,
    pub descriptor: AltitudeDescriptor,
}

/// A speed constraint of a leg. `D` is the type of a speed.
#[derive(Clone, Copy, Debug)]
pub struct SpeedConstraint<D> {
    pub value: D,
    pub descriptor: SpeedDescriptor,
}

/// One procedure row of the database, as far as its leg is concerned. `D`
/// is the type of a measured value (degrees, feet, knots, miles, minutes).
pub struct ProcedureLegRow<D> {
    pub airport_identifier: String,
    pub altitude_description: Option<AltitudeDescriptor>,
    pub altitude1: Option<D>,
    pub altitude2: Option<D>,
    pub arc_radius: Option<D>,
    pub center_waypoint: Option<String>,
    pub center_waypoint_icao_code: Option<String>,
    pub center_waypoint_latitude: Option<D>,
    pub center_waypoint_longitude: Option<D>,
    pub center_waypoint_ref_table: String,
    pub distance_time: Option<D>,
    pub path_termination: LegType,
    pub recommended_navaid: Option<String>,
    pub recommended_navaid_icao_code: Option<String>,
    pub recommended_navaid_latitude: Option<D>,
    pub recommended_navaid_longitude: Option<D>,
    pub recommended_navaid_ref_table: String,
    pub rho: Option<D>,
    pub rnp: Option<D>,
    pub route_distance_holding_distance_time: Option<String>,
    pub speed_limit_description: Option<SpeedDescriptor>,
    pub speed_limit: Option<D>,
    pub theta: Option<D>,
    pub turn_direction: Option<TurnDirection>,
    pub vertical_angle: Option<D>,
    pub waypoint_description_code: Option<String>,
    pub waypoint_icao_code: Option<String>,
    pub waypoint_identifier: Option<String>,
    pub waypoint_latitude: Option<D>,
    pub waypoint_longitude: Option<D>,
    pub waypoint_ref_table: String,
}

/// A leg of a departure, an arrival or an approach.
pub struct ProcedureLeg<D> {
    /// The termination of the leg is flown directly over.
    pub overfly: bool,
    pub leg_type: LegType,
    pub altitude: Option<AltitudeContstraint<D>>,
    pub speed: Option<SpeedConstraint<D>>,
    pub vertical_angle: Option<D>,
    pub rnp: Option<D>,
    /// The fix the leg ends at.
    pub fix: Option<Fix<D>>,
    /// The radio navigation aid associated with the leg.
    pub recommended_navaid: Option<Fix<D>>,
    pub theta: Option<D>,
    pub rho: Option<D>,
    pub magnetic_course: Option<D>,
    /// The length of the leg in nautical miles.
    pub length: Option<D>,
    /// The time to fly in a hold, in minutes.
    pub length_time: Option<D>,
    pub turn_direction: Option<TurnDirection>,
    /// The centre of the arc of an `RF` leg.
    pub arc_center_fix: Option<Fix<D>>,
    pub arc_radius: Option<D>,
}

/// The abstract value of a leg.
pub struct ProcedureLegView<D> {
    pub overfly: bool,
    pub leg_type: LegType,
    pub altitude: Option<AltitudeContstraint<D>>,
    pub speed: Option<SpeedConstraint<D>>,
    pub vertical_angle: Option<D>,
    pub rnp: Option<D>,
    pub fix: Option<FixView<D>>,
    pub recommended_navaid: Option<FixView<D>>,
    pub theta: Option<D>,
    pub rho: Option<D>,
    pub magnetic_course: Option<D>,
    pub length: Option<D>,
    pub length_time: Option<D>,
    pub turn_direction: Option<TurnDirection>,
    pub arc_center_fix: Option<FixView<D>>,
    pub arc_radius: Option<D>,
}

pub open spec fn opt_fix_view<D>(f: Option<Fix<D>>) -> Option<FixView<D>> {
    match f {
        Some(x) => Some(fix_view(x)),
        None => None,
    }
}

pub open spec fn leg_view<D>(l: ProcedureLeg<D>) -> ProcedureLegView<D> {
    ProcedureLegView {
        overfly: l.overfly,
        leg_type: l.leg_type,
        altitude: l.altitude,
        speed: l.speed,
        vertical_angle: l.vertical_angle,
        rnp: l.rnp,
        fix: opt_fix_view(l.fix),
        recommended_navaid: opt_fix_view(l.recommended_navaid),
        theta: l.theta,
        rho: l.rho,
        magnetic_course: l.magnetic_course,
        length: l.length,
        length_time: l.length_time,
        turn_direction: l.turn_direction,
        arc_center_fix: opt_fix_view(l.arc_center_fix),
        arc_radius: l.arc_radius,
    }
}

/// A referenced fix is complete: when its identifier is there, so are its
/// position and region code, and its table tells its type.
pub open spec fn fix_ref_ok<D>(ident: Option<String>, icao: Option<String>, lat: Option<D>, long: Option<D>, table: String) -> bool {
    ident is Some ==> {
        &&& icao is Some
        &&& lat is Some
        &&& long is Some
        &&& fix_type_of_table(table@) is Some
    }
}

/// The row describes its fixes completely.
pub open spec fn leg_row_ok<D>(r: ProcedureLegRow<D>) -> bool {
    &&& fix_ref_ok(
        r.waypoint_identifier,
        r.waypoint_icao_code,
        r.waypoint_latitude,
        r.waypoint_longitude,
        r.waypoint_ref_table,
    )
    &&& fix_ref_ok(
        r.recommended_navaid,
        r.recommended_navaid_icao_code,
        r.recommended_navaid_latitude,
        r.recommended_navaid_longitude,
        r.recommended_navaid_ref_table,
    )
    &&& fix_ref_ok(
        r.center_waypoint,
        r.center_waypoint_icao_code,
        r.center_waypoint_latitude,
        r.center_waypoint_longitude,
        r.center_waypoint_ref_table,
    )
}

/// The fix a row references, with the row's airport.
pub open spec fn referenced_fix<D>(
    ident: Option<String>,
    icao: Option<String>,
    lat: Option<D>,
    long: Option<D>,
    table: String,
    airport: String,
) -> Option<FixView<D>> {
    match ident {
        Some(id) => Some(
            FixView {
                fix_type: fix_type_of_table(table@)->0,
                ident: id@,
                icao_code: icao->0@,
                location: Coordinates { lat: lat->0, long: long->0 },
                airport_ident: Some(airport@),
            },
        ),
        None => None,
    }
}

/// The distance or time of the row counts when its kind is the one-letter
/// code `c` (`D` for a distance, `T` for a time).
pub open spec fn measure_if<D>(kind: Option<String>, c: char, v: Option<D>) -> Option<D> {
    match kind {
        Some(k) => if is_char_string(k@, c) {
            v
        } else {
            None
        },
        None => None,
    }
}

/// The leg's length is the row's distance/time value when its kind is `D`,
/// its holding time that value when the kind is `T`, and never both; the leg
/// is flown over its fix when the waypoint description code has `Y` as second
/// character.
pub proof fn lemma_leg_codes<D>(r: ProcedureLegRow<D>)
    ensures
        leg_of(r).length == (if r.route_distance_holding_distance_time matches Some(k) && k@ == seq!['D'] {
            r.distance_time
        } else {
            None
        }),
        leg_of(r).length_time == (if r.route_distance_holding_distance_time matches Some(k) && k@ == seq!['T'] {
            r.distance_time
        } else {
            None
        }),
        leg_of(r).length is None || leg_of(r).length_time is None,
        leg_of(r).overfly <==> (r.waypoint_description_code matches Some(d) && d@.len() > 1 && d@[1] == 'Y'),
{
    assert(seq!['D'].len() == 1 && seq!['D'][0] == 'D');
    assert(seq!['T'].len() == 1 && seq!['T'][0] == 'T');
    if let Some(k) = r.route_distance_holding_distance_time {
        if is_char_string(k@, 'D') {
            assert(k@ =~= seq!['D']);
        }
        if is_char_string(k@, 'T') {
            assert(k@ =~= seq!['T']);
        }
    }
}

/// The leg that a row describes.
pub open spec fn leg_of<D>(r: ProcedureLegRow<D>) -> ProcedureLegView<D> {
    ProcedureLegView {
        overfly: match r.waypoint_description_code {
            Some(d) => has_char_at(d@, 1, 'Y'),
            None => false,
        },
        leg_type: r.path_termination,
        altitude: match r.altitude1 {
            Some(a1) => Some(
                AltitudeContstraint {
                    altitude1: a1,
                    altitude2: r.altitude2,
                    descriptor: match r.altitude_description {
                        Some(d) => d,
                        None => AltitudeDescriptor::AtAlt1,
                    },
                },
            ),
            None => None,
        },
        speed: match r.speed_limit {
            Some(s) => Some(
                SpeedConstraint {
                    value: s,
                    descriptor: match r.speed_limit_description {
                        Some(d) => d,
                        None => SpeedDescriptor::Mandatory,
                    },
                },
            ),
            None => None,
        },
        vertical_angle: r.vertical_angle,
        rnp: r.rnp,
        fix: referenced_fix(
            r.waypoint_identifier,
            r.waypoint_icao_code,
            r.waypoint_latitude,
            r.waypoint_longitude,
            r.waypoint_ref_table,
            r.airport_identifier,
        ),
        recommended_navaid: referenced_fix(
            r.recommended_navaid,
            r.recommended_navaid_icao_code,
            r.recommended_navaid_latitude,
            r.recommended_navaid_longitude,
            r.recommended_navaid_ref_table,
            r.airport_identifier,
        ),
        theta: r.theta,
        rho: r.rho,
        magnetic_course: None,
        length: measure_if(r.route_distance_holding_distance_time, 'D', r.distance_time),
        length_time: measure_if(r.route_distance_holding_distance_time, 'T', r.distance_time),
        turn_direction: r.turn_direction,
        arc_center_fix: referenced_fix(
            r.center_waypoint,
            r.center_waypoint_icao_code,
            r.center_waypoint_latitude,
            r.center_waypoint_longitude,
            r.center_waypoint_ref_table,
            r.airport_identifier,
        ),
        arc_radius: r.arc_radius,
    }
}

fn fix_of<D: Copy>(
    ident: &Option<String>,
    icao: &Option<String>,
    lat: Option<D>,
    long: Option<D>,
    table: &String,
    airport: &String,
) -> (res: Option<Fix<D>>)
    requires
        fix_ref_ok(*ident, *icao, lat, long, *table),
    ensures
        opt_fix_view(res) == referenced_fix(*ident, *icao, lat, long, *table, *airport),
{
    match (ident, icao, lat, long) {
        (Some(id), Some(code), Some(la), Some(lo)) => Some(
            Fix::from_row_data(la, lo, id.clone(), code.clone(), Some(airport.clone()), table.clone()),
        ),
        _ => None,
    }
}

fn measure_of<D: Copy>(kind: &Option<String>, c: char, v: Option<D>) -> (res: Option<D>)
    ensures
        res == measure_if(*kind, c, v),
{
    match kind {
        Some(k) => if is_single_char(k.as_str(), c) {
            v
        } else {
            None
        },
        None => None,
    }
}

impl<D: Copy> ProcedureLeg<D> {
    /// The leg that a procedure row describes.
    ///
    /// The leg is flown over when the description code has `Y` as second
    /// character; an altitude or speed constraint exists when its first value
    /// does (descriptor `AtAlt1` or `Mandatory` by default); each referenced
    /// fix exists when its identifier does; the distance counts as the leg
    /// length for kind `D` and as the hold time for kind `T`.
    pub fn from_row(leg: ProcedureLegRow<D>) -> (res: Self)
        requires
            leg_row_ok(leg),
        ensures
            leg_view(res) == leg_of(leg),
    {
        let overfly = match &leg.waypoint_description_code {
            Some(d) => char_at_is(d.as_str(), 1, 'Y'),
            None => false,
        };
        let altitude = match leg.altitude1 {
            Some(altitude1) => Some(
                AltitudeContstraint {
                    altitude1,
                    altitude2: leg.altitude2,
                    descriptor: match leg.altitude_description {
                        Some(d) => d,
                        None => AltitudeDescriptor::AtAlt1,
                    },
                },
            ),
            None => None,
        };
        let speed = match leg.speed_limit {
            Some(value) => Some(
                SpeedConstraint {
                    value,
                    descriptor: match leg.speed_limit_description {
                        Some(d) => d,
                        None => SpeedDescriptor::Mandatory,
                    },
                },
            ),
            None => None,
        };
        let fix = fix_of(
            &leg.waypoint_identifier,
            &leg.waypoint_icao_code,
            leg.waypoint_latitude,
            leg.waypoint_longitude,
            &leg.waypoint_ref_table,
            &leg.airport_identifier,
        );
        let recommended_navaid = fix_of(
            &leg.recommended_navaid,
            &leg.recommended_navaid_icao_code,
            leg.recommended_navaid_latitude,
            leg.recommended_navaid_longitude,
            &leg.recommended_navaid_ref_table,
            &leg.airport_identifier,
        );
        let arc_center_fix = fix_of(
            &leg.center_waypoint,
            &leg.center_waypoint_icao_code,
            leg.center_waypoint_latitude,
            leg.center_waypoint_longitude,
            &leg.center_waypoint_ref_table,
            &leg.airport_identifier,
        );
        let length = measure_of(&leg.route_distance_holding_distance_time, 'D', leg.distance_time);
        let length_time = measure_of(&leg.route_distance_holding_distance_time, 'T', leg.distance_time);
        ProcedureLeg {
            overfly,
            leg_type: leg.path_termination,
            altitude,
            speed,
            vertical_angle: leg.vertical_angle,
            rnp: leg.rnp,
            fix,
            recommended_navaid,
            theta: leg.theta,
            rho: leg.rho,
            magnetic_course: None,
            length,
            length_time,
            turn_direction: leg.turn_direction,
            arc_center_fix,
            arc_radius: leg.arc_radius,
        }
    }
}

} // verus!
