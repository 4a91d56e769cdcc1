use vstd::prelude::*;

use crate::enums::{ControlledAirspaceType, RestrictiveAirspaceType, TurnDirection};
use crate::fix::Coordinates;
use crate::text::{char_at_is, has_char_at};
use vstd::string::StrSliceExecFns;

verus! {

/// An arc of an airspace boundary.
#[derive(Clone, Copy, Debug)]
pub struct Arc<D> {
    /// The centre of the arc.
    pub origin: Coordinates<D>,
    /// The radius of the arc, in nautical miles.
    pub distance: D,
    /// The bearing from the origin, in degrees.
    pub bearing: D,
    /// The way the arc turns.
    pub direction: TurnDirection,
}

/// The kind of a boundary path.
#[derive(Clone, Copy, Debug, PartialEq, Eq, Structural)]
pub enum PathType {
    Circle,
    GreatCircle,
    RhumbLine,
    Arc,
    Unknown,
}

/// One piece of an airspace boundary.
#[derive(Clone, Copy, Debug)]
pub struct Path<D> {
    pub location: Coordinates<D>,
    pub arc: Option<Arc<D>>,
    pub path_type: PathType,
}

/// The value of `o`, or `zero` when it is missing.
pub open spec fn or_zero<D>(o: Option<D>, zero: D) -> D {
    match o {
        Some(v) => v,
        None => zero,
    }
}

/// The boundary path that a row describes, and whether a value that the
/// path needs was missing (or the boundary code was not understood).
///
/// The first character of the boundary code decides: `C` a circle around
/// the arc origin, `G` a great circle and `H` a rhumb line to the position,
/// `L` and `R` an arc turning left or right, anything else an unknown path.
pub open spec fn path_of<D>(
    latitude: Option<D>,
    longitude: Option<D>,
    arc_latitude: Option<D>,
    arc_longitude: Option<D>,
    arc_distance: Option<D>,
    arc_bearing: Option<D>,
    boundary_via: Seq<char>,
    zero: D,
) -> (Path<D>, bool) {
    let c = boundary_via[0];
    let position = Coordinates { lat: or_zero(latitude, zero), long: or_zero(longitude, zero) };
    let origin = Coordinates { lat: or_zero(arc_latitude, zero), long: or_zero(arc_longitude, zero) };
    if c == 'C' {
        (
            Path { location: origin, arc: None, path_type: PathType::Circle },
            arc_latitude is None || arc_longitude is None,
        )
    } else if c == 'G' || c == 'H' {
        (
            Path {
                location: position,
                arc: None,
                path_type: if c == 'G' { PathType::GreatCircle } else { PathType::RhumbLine },
            },
            latitude is None || longitude is None,
        )
    } else if c == 'L' || c == 'R' {
        (
            Path {
                location: position,
                arc: Some(
                    Arc {
                        origin,
                        distance: or_zero(arc_distance, zero),
                        bearing: or_zero(arc_bearing, zero),
                        direction: if c == 'R' { TurnDirection::Right } else { TurnDirection::Left },
                    },
                ),
                path_type: PathType::Arc,
            },
            latitude is None || longitude is None || arc_latitude is None || arc_longitude is None
                || arc_distance is None || arc_bearing is None,
        )
    } else {
        (Path { location: Coordinates { lat: zero, long: zero }, arc: None, path_type: PathType::Unknown }, true)
    }
}

/// Where a boundary path lies, by its boundary code. A circle (`C`) is
/// centred on the arc origin. A great circle (`G`), a rhumb line (`H`) and an
/// arc (`L`, `R`) lead to the row's own position; an arc turns left on `L` and
/// right on `R` about the arc origin, with the row's distance and bearing. Any
/// other code is an unknown path at `zero`. A value that the path uses is
/// `zero` when missing, and the error flag tells whether one was missing (or
/// the code unknown).
pub proof fn lemma_path_geometry<D>(
    latitude: Option<D>,
    longitude: Option<D>,
    arc_latitude: Option<D>,
    arc_longitude: Option<D>,
    arc_distance: Option<D>,
    arc_bearing: Option<D>,
    boundary_via: Seq<char>,
    zero: D,
)
    requires
        boundary_via.len() > 0,
    ensures
        ({
            let (p, error) = path_of(
                latitude,
                longitude,
                arc_latitude,
                arc_longitude,
                arc_distance,
                arc_bearing,
                boundary_via,
                zero,
            );
            let c = boundary_via[0];
            let position = Coordinates { lat: or_zero(latitude, zero), long: or_zero(longitude, zero) };
            let origin = Coordinates { lat: or_zero(arc_latitude, zero), long: or_zero(arc_longitude, zero) };
            &&& c == 'C' ==> p == (Path { location: origin, arc: None, path_type: PathType::Circle })
                && error == (arc_latitude is None || arc_longitude is None)
            &&& c == 'G' ==> p == (Path { location: position, arc: None, path_type: PathType::GreatCircle })
                && error == (latitude is None || longitude is None)
            &&& c == 'H' ==> p == (Path { location: position, arc: None, path_type: PathType::RhumbLine })
                && error == (latitude is None || longitude is None)
            &&& (c == 'L' || c == 'R') ==> {
                &&& p.location == position
                &&& p.path_type == PathType::Arc
                &&& p.arc == Some(
                    Arc {
                        origin,
                        distance: or_zero(arc_distance, zero),
                        bearing: or_zero(arc_bearing, zero),
                        direction: if c == 'R' { TurnDirection::Right } else { TurnDirection::Left },
                    },
                )
                &&& error == (latitude is None || longitude is None || arc_latitude is None
                    || arc_longitude is None || arc_distance is None || arc_bearing is None)
            }
            &&& !(c == 'C' || c == 'G' || c == 'H' || c == 'L' || c == 'R') ==> p == (Path {
                location: Coordinates { lat: zero, long: zero },
                arc: None,
                path_type: PathType::Unknown,
            }) && error
        }),
{
}

fn value_or_zero<D: Copy>(o: Option<D>, zero: D, missing: &mut bool) -> (res: D)
    ensures
        res == or_zero(o, zero),
        *final(missing) == (*old(missing) || o is None),
{
    match o {
        Some(v) => v,
        None => {
            *missing = true;
            zero
        },
    }
}

impl<D: Copy> Path<D> {
    /// Builds a boundary path from the values of an airspace row; a missing
    /// value reads as `zero`. The flag tells whether a value the path needs
    /// was missing or the boundary code was not understood.
    pub fn from_data(
        latitude: Option<D>,
        longitude: Option<D>,
        arc_latitude: Option<D>,
        arc_longitude: Option<D>,
        arc_distance: Option<D>,
        arc_bearing: Option<D>,
        boundary_via: String,
        zero: D,
    ) -> (res: (Self, bool))
        requires
            boundary_via@.len() > 0,
        ensures
            res == path_of(
                latitude,
                longitude,
                arc_latitude,
                arc_longitude,
                arc_distance,
                arc_bearing,
                boundary_via@,
                zero,
            ),
    {
        let c = boundary_via.as_str().get_char(0);
        let mut error_in_row = false;
        let path = if c == 'C' {
            let lat = value_or_zero(arc_latitude, zero, &mut error_in_row);
            let long = value_or_zero(arc_longitude, zero, &mut error_in_row);
            Path { location: Coordinates { lat, long }, arc: None, path_type: PathType::Circle }
        } else if c == 'G' || c == 'H' {
            let lat = value_or_zero(latitude, zero, &mut error_in_row);
            let long = value_or_zero(longitude, zero, &mut error_in_row);
            Path {
                location: Coordinates { lat, long },
                arc: None,
                path_type: if c == 'G' { PathType::GreatCircle } else { PathType::RhumbLine },
            }
        } else if c == 'L' || c == 'R' {
            let lat = value_or_zero(latitude, zero, &mut error_in_row);
            let long = value_or_zero(longitude, zero, &mut error_in_row);
            let origin_lat = value_or_zero(arc_latitude, zero, &mut error_in_row);
            let origin_long = value_or_zero(arc_longitude, zero, &mut error_in_row);
            let distance = value_or_zero(arc_distance, zero, &mut error_in_row);
            let bearing = value_or_zero(arc_bearing, zero, &mut error_in_row);
            Path {
                location: Coordinates { lat, long },
                arc: Some(
                    Arc {
                        origin: Coordinates { lat: origin_lat, long: origin_long },
                        distance,
                        bearing,
                        direction: if c == 'R' { TurnDirection::Right } else { TurnDirection::Left },
                    },
                ),
                path_type: PathType::Arc,
            }
        } else {
            error_in_row = true;
            Path { location: Coordinates { lat: zero, long: zero }, arc: None, path_type: PathType::Unknown }
        };
        (path, error_in_row)
    }
}

/// The boundary code closes the airspace: its second character is `E`.
pub open spec fn closes_airspace(boundary_via: Seq<char>) -> bool {
    has_char_at(boundary_via, 1, 'E')
}

/// A boundary code closes its airspace exactly when its second character is
/// `E`.
pub proof fn lemma_airspace_end_code(boundary_via: Seq<char>)
    ensures
        closes_airspace(boundary_via) <==> (boundary_via.len() > 1 && boundary_via[1] == 'E'),
{
}

/// One row of the controlled airspace table, reduced to what assembling
/// airspaces reads. Rows of one airspace come in sequence order.
pub struct ControlledAirspaceRow<D> {
    pub area_code: String,
    pub icao_code: String,
    pub airspace_center: String,
    pub controlled_airspace_name: Option<String>,
    pub airspace_type: ControlledAirspaceType,
    pub boundary_via: String,
    pub latitude: Option<D>,
    pub longitude: Option<D>,
    pub arc_origin_latitude: Option<D>,
    pub arc_origin_longitude: Option<D>,
    pub arc_distance: Option<D>,
    pub arc_bearing: Option<D>,
}

/// A controlled airspace and its boundary.
pub struct ControlledAirspace<D> {
    pub area_code: String,
    pub icao_code: String,
    pub airspace_center: String,
    pub name: String,
    pub airspace_type: ControlledAirspaceType,
    pub boundary_paths: Vec<Path<D>>,
}

/// The abstract value of an airspace: its texts (area code, region code,
/// centre or designation, name), its type and its boundary.
#[verifier::ext_equal]
pub struct AirspaceView<T, D> {
    pub area_code: Seq<char>,
    pub icao_code: Seq<char>,
    pub designation: Seq<char>,
    pub name: Seq<char>,
    pub airspace_type: T,
    pub boundary_paths: Seq<Path<D>>,
}

pub open spec fn controlled_view<D>(a: ControlledAirspace<D>) -> AirspaceView<ControlledAirspaceType, D> {
    AirspaceView {
        area_code: a.area_code@,
        icao_code: a.icao_code@,
        designation: a.airspace_center@,
        name: a.name@,
        airspace_type: a.airspace_type,
        boundary_paths: a.boundary_paths@,
    }
}

pub open spec fn controlled_views<D>(s: Seq<ControlledAirspace<D>>) -> Seq<
    AirspaceView<ControlledAirspaceType, D>,
> {
    s.map_values(|a: ControlledAirspace<D>| controlled_view(a))
}

/// Every row has a boundary code.
pub open spec fn controlled_rows_ok<D>(rows: Seq<ControlledAirspaceRow<D>>) -> bool {
    forall|i: int| 0 <= i < rows.len() ==> (#[trigger] rows[i].boundary_via@).len() > 0
}

pub open spec fn controlled_row_path<D>(row: ControlledAirspaceRow<D>, zero: D) -> Path<D> {
    path_of(
        row.latitude,
        row.longitude,
        row.arc_origin_latitude,
        row.arc_origin_longitude,
        row.arc_distance,
        row.arc_bearing,
        row.boundary_via@,
        zero,
    ).0
}

/// The step shared by both kinds of airspace: `start` is the airspace a row
/// would open (none when the row has no name), `path` its boundary path,
/// `closes` whether it closes its airspace.
///
/// A row that would open an airspace (the first one, or the one after a
/// closing row) but has no name is skipped, and the next row may again
/// continue the airspace before it. Otherwise the row adds its path to the
/// last airspace.
pub open spec fn airspace_step<T, D>(
    state: (Seq<AirspaceView<T, D>>, bool),
    start: Option<AirspaceView<T, D>>,
    path: Path<D>,
    closes: bool,
) -> (Seq<AirspaceView<T, D>>, bool) {
    let (prev, complete) = state;
    if (prev.len() == 0 || complete) && start is None {
        (prev, false)
    } else {
        let base = if prev.len() == 0 || complete {
            prev.push(start->0)
        } else {
            prev
        };
        let n = base.len() - 1;
        let last = base[n];
        (base.update(n, AirspaceView { boundary_paths: last.boundary_paths.push(path), ..last }), closes)
    }
}

/// The warning flag after a row, from the flag before it: a row that is
/// skipped (it would open an airspace but has no name) keeps the flag; any
/// other row sets it to whether its own boundary path had an error. So the
/// flag tells whether the path of the last row that was not skipped had one.
pub open spec fn warning_step<T, D>(
    flag: bool,
    state: (Seq<AirspaceView<T, D>>, bool),
    start: Option<AirspaceView<T, D>>,
    path_error: bool,
) -> bool {
    if (state.0.len() == 0 || state.1) && start is None {
        flag
    } else {
        path_error
    }
}

pub open spec fn controlled_start<D>(row: ControlledAirspaceRow<D>) -> Option<
    AirspaceView<ControlledAirspaceType, D>,
> {
    match row.controlled_airspace_name {
        Some(name) => Some(
            AirspaceView {
                area_code: row.area_code@,
                icao_code: row.icao_code@,
                designation: row.airspace_center@,
                name: name@,
                airspace_type: row.airspace_type,
                boundary_paths: seq![],
            },
        ),
        None => None,
    }
}

pub open spec fn controlled_state<D>(rows: Seq<ControlledAirspaceRow<D>>, zero: D) -> (
    Seq<AirspaceView<ControlledAirspaceType, D>>,
    bool,
)
    decreases rows.len(),
{
    if rows.len() == 0 {
        (seq![], false)
    } else {
        let row = rows.last();
        airspace_step(
            controlled_state(rows.drop_last(), zero),
            controlled_start(row),
            controlled_row_path(row, zero),
            closes_airspace(row.boundary_via@),
        )
    }
}

/// Collects controlled airspace rows into airspaces with their boundaries.
///
/// An airspace runs until a row whose boundary code closes it; the next row
/// opens a new airspace, unless it has no name, in which case it is skipped.
/// A missing position reads as `zero`.
pub fn map_controlled_airspaces<D: Copy>(data: Vec<ControlledAirspaceRow<D>>, zero: D) -> (res: Vec<
    ControlledAirspace<D>,
>)
    requires
        controlled_rows_ok(data@),
    ensures
        controlled_views(res@) == controlled_state(data@, zero).0,
{
    let mut airspaces: Vec<ControlledAirspace<D>> = Vec::new();
    let mut complete = false;
    let mut i: usize = 0;
    proof {
        assert(data@.take(0) =~= Seq::<ControlledAirspaceRow<D>>::empty());
        assert(controlled_views(airspaces@) =~= Seq::<AirspaceView<ControlledAirspaceType, D>>::empty());
    }
    while i < data.len()
        invariant
            i <= data.len(),
            controlled_rows_ok(data@),
            (controlled_views(airspaces@), complete) == controlled_state(data@.take(i as int), zero),
        decreases data.len() - i,
    {
        let row = &data[i];
        let ghost prev = controlled_views(airspaces@);
        proof {
            let taken = data@.take(i + 1);
            assert(taken.drop_last() =~= data@.take(i as int));
            assert(taken.last() == data@[i as int]);
            assert(data@[i as int].boundary_via@.len() > 0);
        }
        let opening = airspaces.len() == 0 || complete;
        if opening && row.controlled_airspace_name.is_none() {
            complete = false;
        } else {
            if opening {
                let name = match &row.controlled_airspace_name {
                    Some(n) => n.clone(),
                    None => String::new(),
                };
                airspaces.push(
                    ControlledAirspace {
                        area_code: row.area_code.clone(),
                        icao_code: row.icao_code.clone(),
                        airspace_center: row.airspace_center.clone(),
                        name,
                        airspace_type: row.airspace_type,
                        boundary_paths: Vec::new(),
                    },
                );
                proof {
                    assert(controlled_views(airspaces@) =~= prev.push(controlled_start(data@[i as int])->0));
                }
            }
            let ghost base = controlled_views(airspaces@);
            let ends = char_at_is(row.boundary_via.as_str(), 1, 'E');
            let (path, _) = Path::from_data(
                row.latitude,
                row.longitude,
                row.arc_origin_latitude,
                row.arc_origin_longitude,
                row.arc_distance,
                row.arc_bearing,
                row.boundary_via.clone(),
                zero,
            );
            let n = airspaces.len() - 1;
            let ghost before_vec = airspaces@;
            let a = &mut airspaces[n];
            a.boundary_paths.push(path);
            proof {
                let last = base[n as int];
                assert(airspaces@ == before_vec.update(n as int, airspaces@[n as int]));
                assert(controlled_views(airspaces@) =~= base.update(
                    n as int,
                    AirspaceView { boundary_paths: last.boundary_paths.push(path), ..last },
                ));
            }
            complete = ends;
        }
        i = i + 1;
    }
    proof {
        assert(data@.take(data.len() as int) =~= data@);
    }
    airspaces
}


/// Whether assembling `rows` ends with the warning flag raised: the boundary
/// path of the last row that was not skipped had a missing value or an
/// unknown boundary code.
pub open spec fn controlled_warning<D>(rows: Seq<ControlledAirspaceRow<D>>, zero: D) -> bool
    decreases rows.len(),
{
    if rows.len() == 0 {
        false
    } else {
        let row = rows.last();
        warning_step(
            controlled_warning(rows.drop_last(), zero),
            controlled_state(rows.drop_last(), zero),
            controlled_start(row),
            path_of(
                row.latitude,
                row.longitude,
                row.arc_origin_latitude,
                row.arc_origin_longitude,
                row.arc_distance,
                row.arc_bearing,
                row.boundary_via@,
                zero,
            ).1,
        )
    }
}

/// Whether `map_controlled_airspaces` reports these rows as malformed.
pub fn controlled_airspaces_warn<D: Copy>(data: &Vec<ControlledAirspaceRow<D>>, zero: D) -> (res: bool)
    requires
        controlled_rows_ok(data@),
    ensures
        res == controlled_warning(data@, zero),
{
    let mut opened = false;
    let mut complete = false;
    let mut flag = false;
    let mut i: usize = 0;
    proof {
        assert(data@.take(0) =~= Seq::<ControlledAirspaceRow<D>>::empty());
    }
    while i < data.len()
        invariant
            i <= data.len(),
            controlled_rows_ok(data@),
            opened == (controlled_state(data@.take(i as int), zero).0.len() > 0),
            complete == controlled_state(data@.take(i as int), zero).1,
            flag == controlled_warning(data@.take(i as int), zero),
        decreases data.len() - i,
    {
        let row = &data[i];
        proof {
            let taken = data@.take(i + 1);
            assert(taken.drop_last() =~= data@.take(i as int));
            assert(taken.last() == data@[i as int]);
            assert(data@[i as int].boundary_via@.len() > 0);
        }
        if (!opened || complete) && row.controlled_airspace_name.is_none() {
            complete = false;
        } else {
            let ends = char_at_is(row.boundary_via.as_str(), 1, 'E');
            let (_, error) = Path::from_data(
                row.latitude,
                row.longitude,
                row.arc_origin_latitude,
                row.arc_origin_longitude,
                row.arc_distance,
                row.arc_bearing,
                row.boundary_via.clone(),
                zero,
            );
            opened = true;
            complete = ends;
            flag = error;
        }
        i = i + 1;
    }
    proof {
        assert(data@.take(data.len() as int) =~= data@);
    }
    flag
}

} // verus!

verus! {

/// One row of the restrictive airspace table, reduced to what assembling
/// airspaces reads. Rows of one airspace come in sequence order.
pub struct RestrictiveAirspaceRow<D> {
    pub area_code: String,
    pub icao_code: String,
    pub restrictive_airspace_designation: String,
    pub restrictive_airspace_name: Option<String>,
    pub restrictive_type: RestrictiveAirspaceType,
    pub boundary_via: String,
    pub latitude: Option<D>,
    pub longitude: Option<D>,
    pub arc_origin_latitude: Option<D>,
    pub arc_origin_longitude: Option<D>,
    pub arc_distance: Option<D>,
    pub arc_bearing: Option<D>,
}

/// A restrictive airspace and its boundary.
pub struct RestrictiveAirspace<D> {
    pub area_code: String,
    pub icao_code: String,
    pub designation: String,
    pub name: String,
    pub airspace_type: RestrictiveAirspaceType,
    pub boundary_paths: Vec<Path<D>>,
}

pub open spec fn restrictive_view<D>(a: RestrictiveAirspace<D>) -> AirspaceView<RestrictiveAirspaceType, D> {
    AirspaceView {
        area_code: a.area_code@,
        icao_code: a.icao_code@,
        designation: a.designation@,
        name: a.name@,
        airspace_type: a.airspace_type,
        boundary_paths: a.boundary_paths@,
    }
}

pub open spec fn restrictive_views<D>(s: Seq<RestrictiveAirspace<D>>) -> Seq<
    AirspaceView<RestrictiveAirspaceType, D>,
> {
    s.map_values(|a: RestrictiveAirspace<D>| restrictive_view(a))
}

/// Every row has a boundary code.
pub open spec fn restrictive_rows_ok<D>(rows: Seq<RestrictiveAirspaceRow<D>>) -> bool {
    forall|i: int| 0 <= i < rows.len() ==> (#[trigger] rows[i].boundary_via@).len() > 0
}

pub open spec fn restrictive_row_path<D>(row: RestrictiveAirspaceRow<D>, zero: D) -> Path<D> {
    path_of(
        row.latitude,
        row.longitude,
        row.arc_origin_latitude,
        row.arc_origin_longitude,
        row.arc_distance,
        row.arc_bearing,
        row.boundary_via@,
        zero,
    ).0
}

pub open spec fn restrictive_start<D>(row: RestrictiveAirspaceRow<D>) -> Option<
    AirspaceView<RestrictiveAirspaceType, D>,
> {
    match row.restrictive_airspace_name {
        Some(name) => Some(
            AirspaceView {
                area_code: row.area_code@,
                icao_code: row.icao_code@,
                designation: row.restrictive_airspace_designation@,
                name: name@,
                airspace_type: row.restrictive_type,
                boundary_paths: seq![],
            },
        ),
        None => None,
    }
}

pub open spec fn restrictive_state<D>(rows: Seq<RestrictiveAirspaceRow<D>>, zero: D) -> (
    Seq<AirspaceView<RestrictiveAirspaceType, D>>,
    bool,
)
    decreases rows.len(),
{
    if rows.len() == 0 {
        (seq![], false)
    } else {
        let row = rows.last();
        airspace_step(
            restrictive_state(rows.drop_last(), zero),
            restrictive_start(row),
            restrictive_row_path(row, zero),
            closes_airspace(row.boundary_via@),
        )
    }
}

/// Collects restrictive airspace rows into airspaces with their boundaries.
///
/// An airspace runs until a row whose boundary code closes it; the next row
/// opens a new airspace, unless it has no name, in which case it is skipped.
/// A missing position reads as `zero`.
pub fn map_restrictive_airspaces<D: Copy>(data: Vec<RestrictiveAirspaceRow<D>>, zero: D) -> (res: Vec<
    RestrictiveAirspace<D>,
>)
    requires
        restrictive_rows_ok(data@),
    ensures
        restrictive_views(res@) == restrictive_state(data@, zero).0,
{
    let mut airspaces: Vec<RestrictiveAirspace<D>> = Vec::new();
    let mut complete = false;
    let mut i: usize = 0;
    proof {
        assert(data@.take(0) =~= Seq::<RestrictiveAirspaceRow<D>>::empty());
        assert(restrictive_views(airspaces@) =~= Seq::<AirspaceView<RestrictiveAirspaceType, D>>::empty());
    }
    while i < data.len()
        invariant
            i <= data.len(),
            restrictive_rows_ok(data@),
            (restrictive_views(airspaces@), complete) == restrictive_state(data@.take(i as int), zero),
        decreases data.len() - i,
    {
        let row = &data[i];
        let ghost prev = restrictive_views(airspaces@);
        proof {
            let taken = data@.take(i + 1);
            assert(taken.drop_last() =~= data@.take(i as int));
            assert(taken.last() == data@[i as int]);
            assert(data@[i as int].boundary_via@.len() > 0);
        }
        let opening = airspaces.len() == 0 || complete;
        if opening && row.restrictive_airspace_name.is_none() {
            complete = false;
        } else {
            if opening {
                let name = match &row.restrictive_airspace_name {
                    Some(n) => n.clone(),
                    None => String::new(),
                };
                airspaces.push(
                    RestrictiveAirspace {
                        area_code: row.area_code.clone(),
                        icao_code: row.icao_code.clone(),
                        designation: row.restrictive_airspace_designation.clone(),
                        name,
                        airspace_type: row.restrictive_type,
                        boundary_paths: Vec::new(),
                    },
                );
                proof {
                    assert(restrictive_views(airspaces@) =~= prev.push(restrictive_start(data@[i as int])->0));
                }
            }
            let ghost base = restrictive_views(airspaces@);
            let ends = char_at_is(row.boundary_via.as_str(), 1, 'E');
            let (path, _) = Path::from_data(
                row.latitude,
                row.longitude,
                row.arc_origin_latitude,
                row.arc_origin_longitude,
                row.arc_distance,
                row.arc_bearing,
                row.boundary_via.clone(),
                zero,
            );
            let n = airspaces.len() - 1;
            let ghost before_vec = airspaces@;
            let a = &mut airspaces[n];
            a.boundary_paths.push(path);
            proof {
                let last = base[n as int];
                assert(airspaces@ == before_vec.update(n as int, airspaces@[n as int]));
                assert(restrictive_views(airspaces@) =~= base.update(
                    n as int,
                    AirspaceView { boundary_paths: last.boundary_paths.push(path), ..last },
                ));
            }
            complete = ends;
        }
        i = i + 1;
    }
    proof {
        assert(data@.take(data.len() as int) =~= data@);
    }
    airspaces
}

/// Whether assembling `rows` ends with the warning flag raised: the boundary
/// path of the last row that was not skipped had a missing value or an
/// unknown boundary code.
pub open spec fn restrictive_warning<D>(rows: Seq<RestrictiveAirspaceRow<D>>, zero: D) -> bool
    decreases rows.len(),
{
    if rows.len() == 0 {
        false
    } else {
        let row = rows.last();
        warning_step(
            restrictive_warning(rows.drop_last(), zero),
            restrictive_state(rows.drop_last(), zero),
            restrictive_start(row),
            path_of(
                row.latitude,
                row.longitude,
                row.arc_origin_latitude,
                row.arc_origin_longitude,
                row.arc_distance,
                row.arc_bearing,
                row.boundary_via@,
                zero,
            ).1,
        )
    }
}

/// Whether `map_restrictive_airspaces` reports these rows as malformed.
pub fn restrictive_airspaces_warn<D: Copy>(data: &Vec<RestrictiveAirspaceRow<D>>, zero: D) -> (res: bool)
    requires
        restrictive_rows_ok(data@),
    ensures
        res == restrictive_warning(data@, zero),
{
    let mut opened = false;
    let mut complete = false;
    let mut flag = false;
    let mut i: usize = 0;
    proof {
        assert(data@.take(0) =~= Seq::<RestrictiveAirspaceRow<D>>::empty());
    }
    while i < data.len()
        invariant
            i <= data.len(),
            restrictive_rows_ok(data@),
            opened == (restrictive_state(data@.take(i as int), zero).0.len() > 0),
            complete == restrictive_state(data@.take(i as int), zero).1,
            flag == restrictive_warning(data@.take(i as int), zero),
        decreases data.len() - i,
    {
        let row = &data[i];
        proof {
            let taken = data@.take(i + 1);
            assert(taken.drop_last() =~= data@.take(i as int));
            assert(taken.last() == data@[i as int]);
            assert(data@[i as int].boundary_via@.len() > 0);
        }
        if (!opened || complete) && row.restrictive_airspace_name.is_none() {
            complete = false;
        } else {
            let ends = char_at_is(row.boundary_via.as_str(), 1, 'E');
            let (_, error) = Path::from_data(
                row.latitude,
                row.longitude,
                row.arc_origin_latitude,
                row.arc_origin_longitude,
                row.arc_distance,
                row.arc_bearing,
                row.boundary_via.clone(),
                zero,
            );
            opened = true;
            complete = ends;
            flag = error;
        }
        i = i + 1;
    }
    proof {
        assert(data@.take(data.len() as int) =~= data@);
    }
    flag
}


/// Every airspace of `s` has a boundary.
pub open spec fn all_bounded<T, D>(s: Seq<AirspaceView<T, D>>) -> bool {
    forall|i: int| 0 <= i < s.len() ==> #[trigger] s[i].boundary_paths.len() > 0
}

/// A step keeps every airspace bounded and adds at most one airspace.
pub proof fn lemma_airspace_step_bounded<T, D>(
    state: (Seq<AirspaceView<T, D>>, bool),
    start: Option<AirspaceView<T, D>>,
    path: Path<D>,
    closes: bool,
)
    requires
        all_bounded(state.0),
    ensures
        all_bounded(airspace_step(state, start, path, closes).0),
        state.0.len() <= airspace_step(state, start, path, closes).0.len() <= state.0.len() + 1,
{
    let (prev, complete) = state;
    if !((prev.len() == 0 || complete) && start is None) {
        let base = if prev.len() == 0 || complete {
            prev.push(start->0)
        } else {
            prev
        };
        let n = base.len() - 1;
        let next = airspace_step(state, start, path, closes).0;
        assert forall|i: int| 0 <= i < next.len() implies #[trigger] next[i].boundary_paths.len() > 0 by {
            if i < n {
                assert(next[i] == prev[i]);
            }
        }
    }
}

/// Every controlled airspace assembled from rows has a boundary, and there
/// are no more airspaces than rows.
pub proof fn lemma_controlled_airspaces_bounded<D>(rows: Seq<ControlledAirspaceRow<D>>, zero: D)
    ensures
        all_bounded(controlled_state(rows, zero).0),
        controlled_state(rows, zero).0.len() <= rows.len(),
    decreases rows.len(),
{
    if rows.len() > 0 {
        lemma_controlled_airspaces_bounded(rows.drop_last(), zero);
        let row = rows.last();
        lemma_airspace_step_bounded(
            controlled_state(rows.drop_last(), zero),
            controlled_start(row),
            controlled_row_path(row, zero),
            closes_airspace(row.boundary_via@),
        );
    }
}

/// Every restrictive airspace assembled from rows has a boundary, and there
/// are no more airspaces than rows.
pub proof fn lemma_restrictive_airspaces_bounded<D>(rows: Seq<RestrictiveAirspaceRow<D>>, zero: D)
    ensures
        all_bounded(restrictive_state(rows, zero).0),
        restrictive_state(rows, zero).0.len() <= rows.len(),
    decreases rows.len(),
{
    if rows.len() > 0 {
        lemma_restrictive_airspaces_bounded(rows.drop_last(), zero);
        let row = rows.last();
        lemma_airspace_step_bounded(
            restrictive_state(rows.drop_last(), zero),
            restrictive_start(row),
            restrictive_row_path(row, zero),
            closes_airspace(row.boundary_via@),
        );
    }
}

} // verus!
