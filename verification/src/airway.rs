use vstd::prelude::*;

use crate::enums::{AirwayDirection, AirwayLevel, AirwayRouteType};
use crate::fix::{fix_type_of_table, fix_view, Coordinates, Fix, FixView};
use crate::procedure::opt_view;
use crate::text::{char_at_is, has_char_at};

verus! {

/// One enroute airway row of the database, reduced to what assembling
/// airways reads. Rows of one airway come in sequence order.
pub struct AirwayRow<D> {
    pub route_identifier: Option<String>,
    pub route_type: Option<AirwayRouteType>,
    pub flightlevel: Option<AirwayLevel>,
    pub direction_restriction: Option<AirwayDirection>,
    pub icao_code: Option<String>,
    pub waypoint_identifier: Option<String>,
    pub waypoint_latitude: Option<D>,
    pub waypoint_longitude: Option<D>,
    pub waypoint_ref_table: String,
    pub waypoint_description_code: Option<String>,
}

/// An airway: an identified, ordered list of fixes.
pub struct Airway<D> {
    /// Identifier of the airway (not unique), such as `A1` or `Y175`.
    pub ident: String,
    /// The fixes which make up the airway, in order.
    pub fixes: Vec<Fix<D>>,
    /// The type of airway.
    pub route_type: AirwayRouteType,
    /// The altitude band the airway belongs to.
    pub level: AirwayLevel,
    /// A directional restriction on the airway, if any.
    pub direction: Option<AirwayDirection>,
}

/// The abstract value of an airway.
#[verifier::ext_equal]
pub struct AirwayView<D> {
    pub ident: Seq<char>,
    pub fixes: Seq<FixView<D>>,
    pub route_type: AirwayRouteType,
    pub level: AirwayLevel,
    pub direction: Option<AirwayDirection>,
}

pub open spec fn airway_view<D>(a: Airway<D>) -> AirwayView<D> {
    AirwayView {
        ident: a.ident@,
        fixes: a.fixes@.map_values(|f: Fix<D>| fix_view(f)),
        route_type: a.route_type,
        level: a.level,
        direction: a.direction,
    }
}

pub open spec fn airways_view<D>(s: Seq<Airway<D>>) -> Seq<AirwayView<D>> {
    s.map_values(|a: Airway<D>| airway_view(a))
}

/// The two database formats, which fill missing airway values differently.
#[derive(Clone, Copy, Debug, PartialEq, Eq, Structural)]
pub enum AirwayFormat {
    /// Missing route type and level read `Unknown`, missing fix texts `UNKN`.
    V1,
    /// Missing route type reads `UndesignatedAtsRoute`, level `Both`, fix texts `NULL`.
    V2,
}

pub open spec fn default_route_type(f: AirwayFormat) -> AirwayRouteType {
    match f {
        AirwayFormat::V1 => AirwayRouteType::Unknown,
        AirwayFormat::V2 => AirwayRouteType::UndesignatedAtsRoute,
    }
}

pub open spec fn default_level(f: AirwayFormat) -> AirwayLevel {
    match f {
        AirwayFormat::V1 => AirwayLevel::Unknown,
        AirwayFormat::V2 => AirwayLevel::Both,
    }
}

/// The text that stands in for a missing fix identifier or region code.
pub open spec fn missing_fix_text_of(f: AirwayFormat) -> Seq<char> {
    match f {
        AirwayFormat::V1 => seq!['U', 'N', 'K', 'N'],
        AirwayFormat::V2 => seq!['N', 'U', 'L', 'L'],
    }
}

/// The text that stands in for a missing airway identifier.
pub open spec fn missing_airway_ident() -> Seq<char> {
    seq!['E', 'R', 'R', 'O', 'R']
}


pub open spec fn text_or(o: Option<String>, d: Seq<char>) -> Seq<char> {
    match opt_view(o) {
        Some(s) => s,
        None => d,
    }
}

pub open spec fn value_or<D>(o: Option<D>, d: D) -> D {
    match o {
        Some(v) => v,
        None => d,
    }
}

/// Every row names a table that tells the fix type.
pub open spec fn airway_rows_ok<D>(rows: Seq<AirwayRow<D>>) -> bool {
    forall|i: int| 0 <= i < rows.len() ==> (#[trigger] fix_type_of_table(rows[i].waypoint_ref_table@)) is Some
}

/// The fix that a row contributes; a missing position reads as `zero`.
pub open spec fn row_fix<D>(row: AirwayRow<D>, zero: D, fmt: AirwayFormat) -> FixView<D> {
    FixView {
        fix_type: fix_type_of_table(row.waypoint_ref_table@)->0,
        ident: text_or(row.waypoint_identifier, missing_fix_text_of(fmt)),
        icao_code: text_or(row.icao_code, missing_fix_text_of(fmt)),
        location: Coordinates {
            lat: value_or(row.waypoint_latitude, zero),
            long: value_or(row.waypoint_longitude, zero),
        },
        airport_ident: None,
    }
}

/// The airway that a row starts, before its own fix is added.
pub open spec fn row_airway<D>(row: AirwayRow<D>, fmt: AirwayFormat) -> AirwayView<D> {
    AirwayView {
        ident: text_or(row.route_identifier, missing_airway_ident()),
        fixes: seq![],
        route_type: value_or(row.route_type, default_route_type(fmt)),
        level: value_or(row.flightlevel, default_level(fmt)),
        direction: row.direction_restriction,
    }
}

/// The row closes its airway: its description code has `E` as second character.
pub open spec fn row_ends_airway<D>(row: AirwayRow<D>) -> bool {
    match opt_view(row.waypoint_description_code) {
        Some(d) => has_char_at(d, 1, 'E'),
        None => false,
    }
}

/// A row closes its airway exactly when its waypoint description code has
/// `E` as second character.
pub proof fn lemma_airway_end_code<D>(row: AirwayRow<D>)
    ensures
        row_ends_airway(row) <==> (row.waypoint_description_code matches Some(d) && d@.len() > 1 && d@[1] == 'E'),
{
}

/// The airways assembled from `rows`, and whether the last one is closed.
/// A row starts a new airway when it is the first row or when the row before
/// it closed an airway; every row adds its fix to the last airway.
pub open spec fn airways_state<D>(rows: Seq<AirwayRow<D>>, zero: D, fmt: AirwayFormat) -> (Seq<AirwayView<D>>, bool)
    decreases rows.len(),
{
    if rows.len() == 0 {
        (seq![], false)
    } else {
        let (prev, complete) = airways_state(rows.drop_last(), zero, fmt);
        let row = rows.last();
        let base = if prev.len() == 0 || complete {
            prev.push(row_airway(row, fmt))
        } else {
            prev
        };
        let n = base.len() - 1;
        let last = base[n];
        (
            base.update(n, AirwayView { fixes: last.fixes.push(row_fix(row, zero, fmt)), ..last }),
            row_ends_airway(row),
        )
    }
}

pub open spec fn airways_of<D>(rows: Seq<AirwayRow<D>>, zero: D, fmt: AirwayFormat) -> Seq<AirwayView<D>> {
    airways_state(rows, zero, fmt).0
}

fn airway_ident_or_error(o: &Option<String>) -> (res: String)
    ensures
        res@ == text_or(*o, missing_airway_ident()),
{
    match o {
        Some(s) => s.clone(),
        None => {
            let r = String::from_str("ERROR");
            proof {
                reveal_strlit("ERROR");
            }
            r
        },
    }
}

fn fix_text_or_missing(o: &Option<String>, fmt: AirwayFormat) -> (res: String)
    ensures
        res@ == text_or(*o, missing_fix_text_of(fmt)),
{
    match o {
        Some(s) => s.clone(),
        None => match fmt {
            AirwayFormat::V1 => {
                let r = String::from_str("UNKN");
                proof {
                    reveal_strlit("UNKN");
                }
                r
            },
            AirwayFormat::V2 => {
                let r = String::from_str("NULL");
                proof {
                    reveal_strlit("NULL");
                }
                r
            },
        },
    }
}

fn ends_airway<D>(row: &AirwayRow<D>) -> (res: bool)
    ensures
        res == row_ends_airway(*row),
{
    match &row.waypoint_description_code {
        Some(d) => char_at_is(d.as_str(), 1, 'E'),
        None => false,
    }
}

/// Collects enroute airway rows into airways.
///
/// The rows must hold whole airways in sequence order: an airway runs until
/// a row whose description code marks the end of the route, and the next row
/// starts a new airway. A missing airway identifier reads `ERROR`, a missing
/// fix identifier or region code `UNKN`, a missing position `zero`, a missing
/// route type or level `Unknown`.
pub fn map_airways<D: Copy>(data: Vec<AirwayRow<D>>, zero: D) -> (res: Vec<Airway<D>>)
    requires
        airway_rows_ok(data@),
    ensures
        airways_view(res@) == airways_of(data@, zero, AirwayFormat::V1),
{
    assemble_airways(data, zero, AirwayFormat::V1)
}

/// Collects enroute airway rows of a second format database into airways,
/// as `map_airways` does, except that a missing fix identifier or region
/// code reads `NULL`, a missing route type `UndesignatedAtsRoute` and a
/// missing level `Both`.
pub fn map_airways_v2<D: Copy>(data: Vec<AirwayRow<D>>, zero: D) -> (res: Vec<Airway<D>>)
    requires
        airway_rows_ok(data@),
    ensures
        airways_view(res@) == airways_of(data@, zero, AirwayFormat::V2),
{
    assemble_airways(data, zero, AirwayFormat::V2)
}

/// Row `i` starts a new airway: it is the first row, or the row before it
/// closed an airway.
pub open spec fn row_starts_airway<D>(rows: Seq<AirwayRow<D>>, i: int) -> bool {
    i == 0 || row_ends_airway(rows[i - 1])
}

/// A row is malformed when a value of its fix is missing, or when it starts
/// an airway and has no airway identifier.
pub open spec fn airway_row_malformed<D>(row: AirwayRow<D>, starts: bool) -> bool {
    ||| starts && row.route_identifier is None
    ||| row.waypoint_latitude is None
    ||| row.waypoint_longitude is None
    ||| row.waypoint_identifier is None
    ||| row.icao_code is None
}

/// `map_airways` reports its rows as malformed when one of them is.
pub open spec fn airway_rows_malformed<D>(rows: Seq<AirwayRow<D>>) -> bool {
    exists|i: int| 0 <= i < rows.len() && #[trigger] airway_row_malformed(rows[i], row_starts_airway(rows, i))
}

/// Whether `map_airways` reports these rows as malformed.
pub fn airway_rows_warn<D>(data: &Vec<AirwayRow<D>>) -> (res: bool)
    ensures
        res == airway_rows_malformed(data@),
{
    let mut starts = true;
    let mut i: usize = 0;
    while i < data.len()
        invariant
            i <= data.len(),
            i < data.len() ==> starts == row_starts_airway(data@, i as int),
            forall|j: int| 0 <= j < i ==> !#[trigger] airway_row_malformed(data@[j], row_starts_airway(data@, j)),
        decreases data.len() - i,
    {
        let row = &data[i];
        if (starts && row.route_identifier.is_none()) || row.waypoint_latitude.is_none()
            || row.waypoint_longitude.is_none() || row.waypoint_identifier.is_none() || row.icao_code.is_none() {
            assert(airway_row_malformed(data@[i as int], row_starts_airway(data@, i as int)));
            return true;
        }
        starts = ends_airway(row);
        i = i + 1;
    }
    false
}

fn assemble_airways<D: Copy>(data: Vec<AirwayRow<D>>, zero: D, fmt: AirwayFormat) -> (res: Vec<Airway<D>>)
    requires
        airway_rows_ok(data@),
    ensures
        airways_view(res@) == airways_of(data@, zero, fmt),
{
    let mut airways: Vec<Airway<D>> = Vec::new();
    let mut complete = false;
    let mut i: usize = 0;
    proof {
        assert(data@.take(0) =~= Seq::<AirwayRow<D>>::empty());
        assert(airways_view(airways@) =~= Seq::<AirwayView<D>>::empty());
    }
    while i < data.len()
        invariant
            i <= data.len(),
            airway_rows_ok(data@),
            (airways_view(airways@), complete) == airways_state(data@.take(i as int), zero, fmt),
        decreases data.len() - i,
    {
        let row = &data[i];
        let ghost prev = airways_view(airways@);
        proof {
            let taken = data@.take(i + 1);
            assert(taken.drop_last() =~= data@.take(i as int));
            assert(taken.last() == data@[i as int]);
            assert(fix_type_of_table(data@[i as int].waypoint_ref_table@) is Some);
        }
        if airways.len() == 0 || complete {
            let ident = airway_ident_or_error(&row.route_identifier);
            let route_type = match row.route_type {
                Some(t) => t,
                None => match fmt {
                    AirwayFormat::V1 => AirwayRouteType::Unknown,
                    AirwayFormat::V2 => AirwayRouteType::UndesignatedAtsRoute,
                },
            };
            let level = match row.flightlevel {
                Some(l) => l,
                None => match fmt {
                    AirwayFormat::V1 => AirwayLevel::Unknown,
                    AirwayFormat::V2 => AirwayLevel::Both,
                },
            };
            airways.push(
                Airway { ident, fixes: Vec::new(), route_type, level, direction: row.direction_restriction },
            );
            complete = false;
            proof {
                assert(Seq::<Fix<D>>::empty().map_values(|f: Fix<D>| fix_view(f)) =~= Seq::<FixView<D>>::empty());
                assert(airways_view(airways@) =~= prev.push(row_airway(data@[i as int], fmt)));
            }
        }
        let ghost base = airways_view(airways@);
        let lat = match row.waypoint_latitude {
            Some(v) => v,
            None => zero,
        };
        let long = match row.waypoint_longitude {
            Some(v) => v,
            None => zero,
        };
        let fix = Fix::from_row_data(
            lat,
            long,
            fix_text_or_missing(&row.waypoint_identifier, fmt),
            fix_text_or_missing(&row.icao_code, fmt),
            None,
            row.waypoint_ref_table.clone(),
        );
        let ends = ends_airway(row);
        let n = airways.len() - 1;
        let ghost before_vec = airways@;
        let a = &mut airways[n];
        let ghost old_fixes = a.fixes@;
        a.fixes.push(fix);
        proof {
            assert(fix_view(fix) == row_fix(data@[i as int], zero, fmt));
            let last = base[n as int];
            assert(airways@[n as int].fixes@ == old_fixes.push(fix));
            assert(airways@[n as int].fixes@.map_values(|f: Fix<D>| fix_view(f)) =~= old_fixes.map_values(
                |f: Fix<D>| fix_view(f),
            ).push(fix_view(fix)));
            assert(airways@ == before_vec.update(n as int, airways@[n as int]));
            assert(airways_view(airways@) =~= base.update(
                n as int,
                AirwayView { fixes: last.fixes.push(row_fix(data@[i as int], zero, fmt)), ..last },
            ));
        }
        complete = ends;
        i = i + 1;
    }
    proof {
        assert(data@.take(data.len() as int) =~= data@);
    }
    airways
}

/// The fixes of `airways`, one airway after the other.
pub open spec fn fixes_in_order<D>(airways: Seq<AirwayView<D>>) -> Seq<FixView<D>>
    decreases airways.len(),
{
    if airways.len() == 0 {
        seq![]
    } else {
        fixes_in_order(airways.drop_last()) + airways.last().fixes
    }
}

/// Assembling airways loses and reorders no row: the fixes of the airways,
/// one airway after the other, are the rows' fixes in row order, and every
/// airway has at least one fix.
pub proof fn lemma_airways_keep_every_fix<D>(rows: Seq<AirwayRow<D>>, zero: D, fmt: AirwayFormat)
    ensures
        fixes_in_order(airways_of(rows, zero, fmt)) == rows.map_values(|r: AirwayRow<D>| row_fix(r, zero, fmt)),
        forall|i: int| 0 <= i < airways_of(rows, zero, fmt).len() ==> #[trigger] airways_of(rows, zero, fmt)[i].fixes.len() > 0,
    decreases rows.len(),
{
    if rows.len() == 0 {
        assert(rows.map_values(|r: AirwayRow<D>| row_fix(r, zero, fmt)) =~= Seq::<FixView<D>>::empty());
    } else {
        lemma_airways_keep_every_fix(rows.drop_last(), zero, fmt);
        let (prev, complete) = airways_state(rows.drop_last(), zero, fmt);
        let row = rows.last();
        let base = if prev.len() == 0 || complete {
            prev.push(row_airway(row, fmt))
        } else {
            prev
        };
        let n = base.len() - 1;
        let last = base[n];
        let next = base.update(n, AirwayView { fixes: last.fixes.push(row_fix(row, zero, fmt)), ..last });
        assert(fixes_in_order(base) == fixes_in_order(prev)) by {
            if prev.len() == 0 || complete {
                assert(base.drop_last() =~= prev);
                assert(row_airway(row, fmt).fixes =~= Seq::<FixView<D>>::empty());
                assert(fixes_in_order(prev) + Seq::<FixView<D>>::empty() =~= fixes_in_order(prev));
            }
        }
        assert(next.drop_last() =~= base.drop_last());
        assert(fixes_in_order(next) =~= fixes_in_order(base).push(row_fix(row, zero, fmt)));
        assert(rows.map_values(|r: AirwayRow<D>| row_fix(r, zero, fmt)) =~= rows.drop_last().map_values(
            |r: AirwayRow<D>| row_fix(r, zero, fmt),
        ).push(row_fix(row, zero, fmt)));
        assert forall|i: int| 0 <= i < next.len() implies #[trigger] next[i].fixes.len() > 0 by {
            if i < n {
                assert(next[i] == prev[i]);
            }
        }
    }
}

/// The airway passes through the fix `ident` of region `icao_code`.
pub open spec fn passes_through<D>(a: AirwayView<D>, ident: Seq<char>, icao_code: Seq<char>) -> bool {
    exists|i: int| 0 <= i < a.fixes.len() && #[trigger] a.fixes[i].ident == ident && a.fixes[i].icao_code == icao_code
}

/// The airways of `s` that pass through the fix, in order.
pub open spec fn airways_through<D>(s: Seq<AirwayView<D>>, ident: Seq<char>, icao_code: Seq<char>) -> Seq<
    AirwayView<D>,
>
    decreases s.len(),
{
    if s.len() == 0 {
        seq![]
    } else {
        let prev = airways_through(s.drop_last(), ident, icao_code);
        if passes_through(s.last(), ident, icao_code) {
            prev.push(s.last())
        } else {
            prev
        }
    }
}

/// The airways through a fix are exactly those of `s` that have, at some
/// position, a fix with that identifier and region code, in their order in
/// `s`: every airway kept has such a fix, and every airway of `s` with such a
/// fix, wherever it stands in the airway, is kept.
pub proof fn lemma_airways_through_fix<D>(s: Seq<AirwayView<D>>, ident: Seq<char>, icao_code: Seq<char>)
    ensures
        airways_through(s, ident, icao_code) == s.filter(
            |a: AirwayView<D>|
                exists|i: int|
                    0 <= i < a.fixes.len() && #[trigger] a.fixes[i].ident == ident && a.fixes[i].icao_code == icao_code,
        ),
        forall|m: int|
            0 <= m < airways_through(s, ident, icao_code).len() ==> exists|i: int|
                0 <= i < (#[trigger] airways_through(s, ident, icao_code)[m]).fixes.len()
                    && airways_through(s, ident, icao_code)[m].fixes[i].ident == ident
                    && airways_through(s, ident, icao_code)[m].fixes[i].icao_code == icao_code,
        forall|j: int, i: int|
            0 <= j < s.len() && 0 <= i < s[j].fixes.len() && (#[trigger] s[j].fixes[i]).ident == ident
                && s[j].fixes[i].icao_code == icao_code ==> airways_through(s, ident, icao_code).contains(s[j]),
    decreases s.len(),
{
    let pred = |a: AirwayView<D>|
        exists|i: int| 0 <= i < a.fixes.len() && #[trigger] a.fixes[i].ident == ident && a.fixes[i].icao_code == icao_code;
    reveal(Seq::filter);
    if s.len() > 0 {
        lemma_airways_through_fix(s.drop_last(), ident, icao_code);
    }
    assert(airways_through(s, ident, icao_code) == s.filter(pred));
    assert forall|m: int| 0 <= m < s.filter(pred).len() implies pred(#[trigger] s.filter(pred)[m]) by {
        s.lemma_filter_pred(pred, m);
    }
    assert forall|j: int, i: int|
        0 <= j < s.len() && 0 <= i < s[j].fixes.len() && (#[trigger] s[j].fixes[i]).ident == ident
            && s[j].fixes[i].icao_code == icao_code implies s.filter(pred).contains(s[j]) by {
        assert(pred(s[j]));
        s.lemma_filter_contains(pred, j);
    }
}

fn airway_passes_through<D>(a: &Airway<D>, ident: &str, icao_code: &str) -> (res: bool)
    ensures
        res == passes_through(airway_view(*a), ident@, icao_code@),
{
    let ghost v = airway_view(*a);
    let id = ident.to_string();
    let icao = icao_code.to_string();
    let mut i: usize = 0;
    while i < a.fixes.len()
        invariant
            i <= a.fixes.len(),
            v == airway_view(*a),
            id@ == ident@,
            icao@ == icao_code@,
            forall|j: int| 0 <= j < i ==> !(#[trigger] v.fixes[j].ident == ident@ && v.fixes[j].icao_code == icao_code@),
        decreases a.fixes.len() - i,
    {
        let f = &a.fixes[i];
        if f.ident == id && f.icao_code == icao {
            proof {
                assert(v.fixes[i as int].ident == ident@);
            }
            return true;
        }
        i = i + 1;
    }
    false
}

/// Keeps the airways that pass through the fix `fix_ident` of region
/// `fix_icao_code`, in order.
pub fn airways_at_fix<D>(airways: Vec<Airway<D>>, fix_ident: &str, fix_icao_code: &str) -> (res: Vec<Airway<D>>)
    ensures
        airways_view(res@) == airways_through(airways_view(airways@), fix_ident@, fix_icao_code@),
        forall|m: int|
            0 <= m < res.len() ==> exists|i: int|
                0 <= i < (#[trigger] res@[m]).fixes.len() && res@[m].fixes@[i].ident@ == fix_ident@
                    && res@[m].fixes@[i].icao_code@ == fix_icao_code@,
        forall|j: int, i: int|
            0 <= j < airways.len() && 0 <= i < airways@[j].fixes.len() && (#[trigger] airways@[j].fixes@[i]).ident@
                == fix_ident@ && airways@[j].fixes@[i].icao_code@ == fix_icao_code@ ==> airways_view(res@).contains(
                airway_view(airways@[j]),
            ),
{
    let ghost all = airways_view(airways@);
    let ghost old_airways = airways@;
    let mut rest = airways;
    let mut kept: Vec<Airway<D>> = Vec::new();
    proof {
        assert(all.take(0) =~= Seq::<AirwayView<D>>::empty());
        assert(airways_view(rest@) =~= all.skip(0));
        assert(airways_view(kept@) =~= Seq::<AirwayView<D>>::empty());
    }
    while rest.len() > 0
        invariant
            rest.len() <= all.len(),
            airways_view(rest@) == all.skip(all.len() - rest.len()),
            airways_view(kept@) == airways_through(all.take(all.len() - rest.len()), fix_ident@, fix_icao_code@),
        decreases rest.len(),
    {
        let ghost k: int = all.len() - rest.len();
        let ghost before = rest@;
        let a = rest.remove(0);
        proof {
            assert(airways_view(before)[0] == airway_view(a));
            assert(all.skip(k)[0] == all[k]);
            assert(airway_view(a) == all[k]);
            assert(airways_view(rest@) =~= all.skip(k + 1)) by {
                assert(rest@ =~= before.subrange(1, before.len() as int));
                assert forall|j: int| 0 <= j < rest.len() implies airways_view(rest@)[j] == all.skip(k + 1)[j] by {
                    assert(airways_view(before)[j + 1] == all.skip(k)[j + 1]);
                }
            }
            let taken = all.take(k + 1);
            assert(taken.drop_last() =~= all.take(k));
            assert(taken.last() == all[k]);
        }
        if airway_passes_through(&a, fix_ident, fix_icao_code) {
            let ghost kv = airways_view(kept@);
            kept.push(a);
            proof {
                assert(airways_view(kept@) =~= kv.push(all[k]));
            }
        }
    }
    proof {
        assert(all.take(all.len() as int) =~= all);
        lemma_airways_through_fix(all, fix_ident@, fix_icao_code@);
        let r = airways_view(kept@);
        assert forall|m: int| 0 <= m < kept.len() implies exists|i: int|
            0 <= i < (#[trigger] kept@[m]).fixes.len() && kept@[m].fixes@[i].ident@ == fix_ident@
                && kept@[m].fixes@[i].icao_code@ == fix_icao_code@ by {
            assert(r[m] == airway_view(kept@[m]));
            let i = choose|i: int|
                0 <= i < r[m].fixes.len() && r[m].fixes[i].ident == fix_ident@ && r[m].fixes[i].icao_code
                    == fix_icao_code@;
            assert(r[m].fixes[i] == fix_view(kept@[m].fixes@[i]));
        }
        assert forall|j: int, i: int|
            0 <= j < all.len() && 0 <= i < old_airways[j].fixes.len() && (#[trigger] old_airways[j].fixes@[i]).ident@
                == fix_ident@ && old_airways[j].fixes@[i].icao_code@ == fix_icao_code@ implies r.contains(
                airway_view(old_airways[j]),
            ) by {
            assert(all[j] == airway_view(old_airways[j]));
            assert(all[j].fixes[i] == fix_view(old_airways[j].fixes@[i]));
        }
    }
    kept
}

/// How many of `rows` close their airway.
pub open spec fn closing_rows<D>(rows: Seq<AirwayRow<D>>) -> nat
    decreases rows.len(),
{
    if rows.len() == 0 {
        0
    } else {
        closing_rows(rows.drop_last()) + if row_ends_airway(rows.last()) { 1nat } else { 0nat }
    }
}

/// A new airway starts with the first row and after every row that closes
/// one: rows give one airway more than the closing rows before their last.
pub proof fn lemma_airway_count<D>(rows: Seq<AirwayRow<D>>, zero: D, fmt: AirwayFormat)
    ensures
        airways_of(rows, zero, fmt).len() == (if rows.len() == 0 {
            0
        } else {
            1 + closing_rows(rows.drop_last())
        }),
        airways_state(rows, zero, fmt).1 == (rows.len() > 0 && row_ends_airway(rows.last())),
    decreases rows.len(),
{
    if rows.len() > 0 {
        lemma_airway_count(rows.drop_last(), zero, fmt);
        if rows.len() > 1 {
            assert(rows.drop_last().last() == rows[rows.len() - 2]);
        }
    }
}

} // verus!
