use vstd::prelude::*;

use super::{
    add_leg, apply_common_leg, apply_enroute_transition_leg, apply_runway_transition_leg, common_leg_step,
    ident_index, is_all, lemma_ident_index, lemma_ident_index_absent, lemma_ident_index_found, opt_view,
    route_is, runway_idents, runway_prefixes_ok, runway_transition_step, serves_all_with_number,
    transitions_view, ProcedureRow, Transition, TransitionView, distinct_keys, keys, row_idents,
    lemma_keyed_step, lemma_row_idents_push, runway_leg_reaches, common_leg_reaches, lemma_runway_step_len,
    lemma_common_step_len, runway_prefixes_check, add_leg_each, add_leg_matching, lemma_ident_index_of_key, lemma_row_ident_of, lemma_row_of_ident,
};
use crate::text::{char_at_is, has_char_at, is_all_keyword, is_single_char};

verus! {

/// A departure procedure (SID) of an airport.
pub struct Departure<L> {
    /// Identifies the departure within the airport it serves.
    pub ident: String,
    /// One transition per runway the departure serves.
    pub runway_transitions: Vec<Transition<L>>,
    /// Legs shared by every runway the departure serves.
    pub common_legs: Vec<L>,
    /// The enroute transitions of the departure.
    pub enroute_transitions: Vec<Transition<L>>,
    /// The engine-out legs of the departure.
    pub engine_out_legs: Vec<L>,
    /// Whether the runway transitions were all filled from the same common
    /// legs (a common leg named `ALL` or a runway number ending in `B`).
    pub identical_runway_transitions: bool,
}

/// The abstract value of a departure apart from its identifier.
#[verifier::ext_equal]
pub struct DepartureBody<L> {
    pub runway: Seq<TransitionView<L>>,
    pub common: Seq<L>,
    pub enroute: Seq<TransitionView<L>>,
    pub engine_out: Seq<L>,
    pub identical: bool,
}

pub open spec fn departure_view<L>(d: Departure<L>) -> (Seq<char>, DepartureBody<L>) {
    (
        d.ident@,
        DepartureBody {
            runway: transitions_view(d.runway_transitions@),
            common: d.common_legs@,
            enroute: transitions_view(d.enroute_transitions@),
            engine_out: d.engine_out_legs@,
            identical: d.identical_runway_transitions,
        },
    )
}

pub open spec fn departures_view<L>(s: Seq<Departure<L>>) -> Seq<(Seq<char>, DepartureBody<L>)> {
    s.map_values(|d: Departure<L>| departure_view(d))
}

pub open spec fn empty_departure_body<L>() -> DepartureBody<L> {
    DepartureBody { runway: seq![], common: seq![], enroute: seq![], engine_out: seq![], identical: false }
}

/// Route type of engine-out legs of a departure: `0`.
pub open spec fn departure_engine_out_code(rt: Seq<char>) -> bool {
    route_is(rt, '0')
}

/// Route types of runway transition legs of a departure: `1`, `4`, `F`, `T`.
pub open spec fn departure_runway_code(rt: Seq<char>) -> bool {
    route_is(rt, '1') || route_is(rt, '4') || route_is(rt, 'F') || route_is(rt, 'T')
}

/// Route types of common legs of a departure: `2`, `5`, `M`.
pub open spec fn departure_common_code(rt: Seq<char>) -> bool {
    route_is(rt, '2') || route_is(rt, '5') || route_is(rt, 'M')
}

/// Route types of enroute transition legs of a departure: `3`, `6`, `S`, `V`.
pub open spec fn departure_enroute_code(rt: Seq<char>) -> bool {
    route_is(rt, '3') || route_is(rt, '6') || route_is(rt, 'S') || route_is(rt, 'V')
}

/// A row that a departure can be assembled from: a known route type, a
/// transition identifier where the route type needs one, and identifiers
/// whose runway number can be compared where that comparison is made.
pub open spec fn departure_row_ok<L>(row: ProcedureRow<L>, runways: Seq<Seq<char>>) -> bool {
    let rt = row.route_type@;
    let tid = opt_view(row.transition_identifier);
    ||| departure_engine_out_code(rt)
    ||| departure_runway_code(rt) && (tid matches Some(t) && runway_prefixes_ok(t, runways))
    ||| departure_common_code(rt) && (tid matches Some(t) ==> (!is_all(t) ==> runway_prefixes_ok(
        t,
        runways,
    )))
    ||| departure_enroute_code(rt) && tid is Some
}

/// A common leg whose transition identifier fills every matching runway
/// transition alike.
pub open spec fn fills_runways_alike(tid: Option<Seq<char>>) -> bool {
    tid matches Some(t) && (is_all(t) || serves_all_with_number(t))
}

/// Tells whether a departure can be assembled from `row` with these runways.
pub fn departure_row_check<L>(row: &ProcedureRow<L>, runways: &Vec<String>) -> (res: bool)
    ensures
        res == departure_row_ok(*row, runway_idents(runways@)),
{
    let rt = row.route_type.as_str();
    let tid = &row.transition_identifier;
    if is_single_char(rt, '0') {
        true
    } else if is_single_char(rt, '1') || is_single_char(rt, '4') || is_single_char(rt, 'F')
        || is_single_char(rt, 'T') {
        match tid {
            Some(t) => runway_prefixes_check(t.as_str(), runways),
            None => false,
        }
    } else if is_single_char(rt, '2') || is_single_char(rt, '5') || is_single_char(rt, 'M') {
        match tid {
            Some(t) => is_all_keyword(t.as_str()) || runway_prefixes_check(t.as_str(), runways),
            None => true,
        }
    } else if is_single_char(rt, '3') || is_single_char(rt, '6') || is_single_char(rt, 'S')
        || is_single_char(rt, 'V') {
        tid.is_some()
    } else {
        false
    }
}

/// A departure after one more of its rows.
pub open spec fn departure_step<L>(b: DepartureBody<L>, row: ProcedureRow<L>, runways: Seq<Seq<char>>) -> DepartureBody<L> {
    let rt = row.route_type@;
    let tid = opt_view(row.transition_identifier);
    if departure_engine_out_code(rt) {
        DepartureBody {
            runway: b.runway,
            common: b.common,
            enroute: b.enroute,
            engine_out: b.engine_out.push(row.leg),
            identical: b.identical,
        }
    } else if departure_runway_code(rt) {
        DepartureBody {
            runway: runway_transition_step(b.runway, tid->0, runways, row.leg),
            common: b.common,
            enroute: b.enroute,
            engine_out: b.engine_out,
            identical: b.identical,
        }
    } else if departure_common_code(rt) {
        let (runway, common) = common_leg_step(b.runway, b.common, tid, runways, row.leg);
        DepartureBody {
            runway,
            common,
            enroute: b.enroute,
            engine_out: b.engine_out,
            identical: b.identical || fills_runways_alike(tid),
        }
    } else {
        DepartureBody {
            runway: b.runway,
            common: b.common,
            enroute: add_leg(b.enroute, tid->0, row.leg),
            engine_out: b.engine_out,
            identical: b.identical,
        }
    }
}

/// What a row does to its departure, by the route type code table of
/// departure rows: `0` is an engine-out leg; `1`, `4`, `F` and `T` are runway
/// transition legs; `2`, `5` and `M` are common legs; `3`, `6`, `S` and `V`
/// are enroute transition legs. A runway transition leg under `t` goes to the
/// runway transition `t`, or to every runway with its number when `t` has `B`
/// as fifth character. A common leg without transition identifier is a common
/// leg; under `ALL` it goes to every runway, under a number ending in `B` to
/// the runways with that number (both mark the transitions as identical),
/// under another identifier to that runway transition. An enroute transition
/// leg goes to the enroute transition it names. Nothing else changes.
pub proof fn lemma_departure_route_types<L>(b: DepartureBody<L>, row: ProcedureRow<L>, runways: Seq<Seq<char>>)
    ensures
        ({
            let rt = row.route_type@;
            let tid = opt_view(row.transition_identifier);
            let next = departure_step(b, row, runways);
            &&& rt == seq!['0'] ==> next == (DepartureBody { engine_out: b.engine_out.push(row.leg), ..b })
            &&& (rt == seq!['1'] || rt == seq!['4'] || rt == seq!['F'] || rt == seq!['T']) ==> (tid matches Some(t)
                ==> next == (DepartureBody {
                runway: if has_char_at(t, 4, 'B') {
                    add_leg_matching(b.runway, runways, t, row.leg)
                } else {
                    add_leg(b.runway, t, row.leg)
                },
                ..b
            }))
            &&& (rt == seq!['2'] || rt == seq!['5'] || rt == seq!['M']) ==> {
                &&& next.enroute == b.enroute
                &&& next.engine_out == b.engine_out
                &&& match tid {
                    None => next.runway == b.runway && next.common == b.common.push(row.leg) && next.identical
                        == b.identical,
                    Some(t) => {
                        &&& next.common == b.common
                        &&& next.runway == if t == seq!['A', 'L', 'L'] {
                            add_leg_each(b.runway, runways, row.leg)
                        } else if has_char_at(t, 4, 'B') {
                            add_leg_matching(b.runway, runways, t, row.leg)
                        } else {
                            add_leg(b.runway, t, row.leg)
                        }
                        &&& next.identical == (b.identical || t == seq!['A', 'L', 'L'] || has_char_at(t, 4, 'B'))
                    },
                }
            }
            &&& (rt == seq!['3'] || rt == seq!['6'] || rt == seq!['S'] || rt == seq!['V']) ==> (tid matches Some(t)
                ==> next == (DepartureBody { enroute: add_leg(b.enroute, t, row.leg), ..b }))
        }),
{
    let rt = row.route_type@;
    assert(seq!['0'].len() == 1 && seq!['0'][0] == '0');
    assert(seq!['1'].len() == 1 && seq!['1'][0] == '1');
    assert(seq!['2'].len() == 1 && seq!['2'][0] == '2');
    assert(seq!['3'].len() == 1 && seq!['3'][0] == '3');
    assert(seq!['4'].len() == 1 && seq!['4'][0] == '4');
    assert(seq!['5'].len() == 1 && seq!['5'][0] == '5');
    assert(seq!['6'].len() == 1 && seq!['6'][0] == '6');
    assert(seq!['F'].len() == 1 && seq!['F'][0] == 'F');
    assert(seq!['M'].len() == 1 && seq!['M'][0] == 'M');
    assert(seq!['S'].len() == 1 && seq!['S'][0] == 'S');
    assert(seq!['T'].len() == 1 && seq!['T'][0] == 'T');
    assert(seq!['V'].len() == 1 && seq!['V'][0] == 'V');
}

/// A row acts on the departure of its procedure only: that departure (an
/// empty one, added at the end, when the procedure is new) takes the step of
/// the row, and every other departure stays as it was.
pub proof fn lemma_departures_of_push<L>(rows: Seq<ProcedureRow<L>>, row: ProcedureRow<L>, runways: Seq<Seq<char>>)
    ensures
        ({
            let prev = departures_of(rows, runways);
            let next = departures_of(rows.push(row), runways);
            let id = row.procedure_identifier@;
            let k = ident_index(prev, id);
            let body = if k < prev.len() { prev[k].1 } else { empty_departure_body() };
            &&& next.len() == if k < prev.len() { prev.len() } else { prev.len() + 1 }
            &&& next[k] == (id, departure_step(body, row, runways))
            &&& forall|j: int| 0 <= j < prev.len() && j != k ==> #[trigger] next[j] == prev[j]
            &&& forall|j: int| 0 <= j < k ==> prev[j].0 != id
        }),
{
    let rs = rows.push(row);
    assert(rs.drop_last() =~= rows);
    assert(rs.last() == row);
    lemma_ident_index(departures_of(rows, runways), row.procedure_identifier@);
}

/// The departures assembled from `rows`, one per procedure identifier in the
/// order of first appearance, each built from its rows in order.
pub open spec fn departures_of<L>(rows: Seq<ProcedureRow<L>>, runways: Seq<Seq<char>>) -> Seq<
    (Seq<char>, DepartureBody<L>),
>
    decreases rows.len(),
{
    if rows.len() == 0 {
        seq![]
    } else {
        let prev = departures_of(rows.drop_last(), runways);
        let row = rows.last();
        let k = ident_index(prev, row.procedure_identifier@);
        if k < prev.len() {
            prev.update(k, (prev[k].0, departure_step(prev[k].1, row, runways)))
        } else {
            prev.push((row.procedure_identifier@, departure_step(empty_departure_body(), row, runways)))
        }
    }
}

/// The departure named `ident`, added empty at the end when there is none yet.
fn departure_entry<'a, L>(departures: &'a mut Vec<Departure<L>>, ident: &String) -> (res: &'a mut Departure<L>)
    ensures
        ({
            let k = ident_index(departures_view(old(departures)@), ident@);
            if k < old(departures).len() {
                &&& *res == old(departures)@[k]
                &&& final(departures)@ == old(departures)@.update(k, *final(res))
            } else {
                &&& departure_view(*res) == (ident@, empty_departure_body::<L>())
                &&& final(departures)@ == old(departures)@.push(*final(res))
            }
        }),
{
    let ghost dv = departures_view(departures@);
    let mut i: usize = 0;
    while i < departures.len()
        invariant
            i <= departures.len(),
            departures@ == old(departures)@,
            dv == departures_view(departures@),
            forall|j: int| 0 <= j < i ==> dv[j].0 != ident@,
        decreases departures.len() - i,
    {
        if departures[i].ident == *ident {
            proof {
                lemma_ident_index_found(dv, ident@, i as int);
            }
            return &mut departures[i];
        }
        i = i + 1;
    }
    proof {
        lemma_ident_index_absent(dv, ident@);
    }
    departures.push(
        Departure {
            ident: ident.clone(),
            runway_transitions: Vec::new(),
            common_legs: Vec::new(),
            enroute_transitions: Vec::new(),
            engine_out_legs: Vec::new(),
            identical_runway_transitions: false,
        },
    );
    proof {
        assert(transitions_view(Seq::<Transition<L>>::empty()) =~= Seq::<TransitionView<L>>::empty());
    }
    let last = departures.len() - 1;
    &mut departures[last]
}

/// Assembles the departure rows of one airport into departures.
///
/// Rows are grouped by procedure identifier; within a departure, engine-out
/// legs go to the engine-out legs, runway transition legs to their runway
/// transition, common legs to the common legs or to the runway transitions
/// they name, and enroute transition legs to their enroute transition. A
/// transition identifier ending in `B` stands for every runway with that
/// number, and `ALL` for every runway of the airport; common legs filed under
/// either mark the departure's runway transitions as identical. Departures
/// come in the order in which their first row appears.
pub fn map_departures<L: Copy>(data: Vec<ProcedureRow<L>>, runways: Vec<String>) -> (res: Vec<Departure<L>>)
    requires
        forall|i: int| 0 <= i < data.len() ==> #[trigger] departure_row_ok(data@[i], runway_idents(runways@)),
    ensures
        departures_view(res@) == departures_of(data@, runway_idents(runways@)),
        forall|i: int|
            0 <= i < res.len() && departure_serves_runway(data@, #[trigger] res@[i].ident@, runway_idents(runways@))
                ==> res@[i].runway_transitions.len() >= 1,
        departure_rows_complete(data@, runway_idents(runways@)) ==> forall|i: int|
            0 <= i < res.len() ==> (#[trigger] res@[i]).runway_transitions.len() >= 1,
{
    let ghost rws = runway_idents(runways@);
    let mut departures: Vec<Departure<L>> = Vec::new();
    let mut i: usize = 0;
    proof {
        assert(data@.take(0) =~= Seq::<ProcedureRow<L>>::empty());
        assert(departures_view(departures@) =~= Seq::<(Seq<char>, DepartureBody<L>)>::empty());
    }
    while i < data.len()
        invariant
            i <= data.len(),
            rws == runway_idents(runways@),
            forall|j: int| 0 <= j < data.len() ==> #[trigger] departure_row_ok(data@[j], rws),
            departures_view(departures@) == departures_of(data@.take(i as int), rws),
        decreases data.len() - i,
    {
        let row = &data[i];
        assert(departure_row_ok(data@[i as int], rws));
        let ghost prev = departures_view(departures@);
        let ghost k = ident_index(prev, row.procedure_identifier@);
        proof {
            lemma_ident_index(prev, row.procedure_identifier@);
        }
        let departure = departure_entry(&mut departures, &row.procedure_identifier);
        let ghost before = departure_view(*departure);
        let rt = row.route_type.as_str();
        let tid = match &row.transition_identifier {
            Some(t) => Some(t.clone()),
            None => None,
        };
        assert(opt_view(tid) == opt_view(data@[i as int].transition_identifier));
        if is_single_char(rt, '0') {
            departure.engine_out_legs.push(row.leg);
        } else if is_single_char(rt, '1') || is_single_char(rt, '4') || is_single_char(rt, 'F')
            || is_single_char(rt, 'T') {
            match tid {
                Some(t) => apply_runway_transition_leg(
                    row.leg,
                    t,
                    &mut departure.runway_transitions,
                    &runways,
                ),
                None => {},
            }
        } else if is_single_char(rt, '2') || is_single_char(rt, '5') || is_single_char(rt, 'M') {
            let alike = match &tid {
                Some(t) => is_all_keyword(t.as_str()) || char_at_is(t.as_str(), 4, 'B'),
                None => false,
            };
            if alike {
                departure.identical_runway_transitions = true;
            }
            apply_common_leg(
                row.leg,
                tid,
                &mut departure.runway_transitions,
                &mut departure.common_legs,
                &runways,
            );
        } else {
            match tid {
                Some(t) => apply_enroute_transition_leg(row.leg, t, &mut departure.enroute_transitions),
                None => {},
            }
        }
        proof {
            assert(departure_view(*departure).1 =~= departure_step(before.1, data@[i as int], rws));
            let taken = data@.take(i + 1);
            assert(taken.drop_last() =~= data@.take(i as int));
            assert(taken.last() == data@[i as int]);
            if k < prev.len() {
                assert(departures_view(departures@) =~= prev.update(
                    k,
                    (prev[k].0, departure_step(prev[k].1, data@[i as int], rws)),
                ));
            } else {
                assert(departures_view(departures@) =~= prev.push(
                    (
                        data@[i as int].procedure_identifier@,
                        departure_step(empty_departure_body(), data@[i as int], rws),
                    ),
                ));
            }
        }
        i = i + 1;
    }
    proof {
        assert(data@.take(data.len() as int) =~= data@);
        lemma_departure_has_runway_transition(data@, rws);
        let dv = departures_of(data@, rws);
        assert forall|i: int|
            0 <= i < departures.len() && departure_serves_runway(data@, #[trigger] departures@[i].ident@, rws)
                implies departures@[i].runway_transitions.len() >= 1 by {
            assert(dv[i] == departure_view(departures@[i]));
            assert(departure_serves_runway(data@, dv[i].0, rws));
        }
        if departure_rows_complete(data@, rws) {
            assert forall|i: int| 0 <= i < departures.len() implies (
            #[trigger] departures@[i]).runway_transitions.len() >= 1 by {
                assert(dv[i] == departure_view(departures@[i]));
                assert(dv[i].1.runway.len() >= 1);
            }
        }
    }
    departures
}


/// Assembling departures yields one departure per procedure identifier of
/// the rows, and no other.
pub proof fn lemma_one_departure_per_identifier<L>(rows: Seq<ProcedureRow<L>>, runways: Seq<Seq<char>>)
    ensures
        distinct_keys(departures_of(rows, runways)),
        keys(departures_of(rows, runways)) == row_idents(rows),
    decreases rows.len(),
{
    if rows.len() == 0 {
        assert(keys(departures_of(rows, runways)) =~= Set::<Seq<char>>::empty());
        assert(row_idents(rows) =~= Set::<Seq<char>>::empty());
    } else {
        lemma_one_departure_per_identifier(rows.drop_last(), runways);
        let prev = departures_of(rows.drop_last(), runways);
        let row = rows.last();
        let k = ident_index(prev, row.procedure_identifier@);
        lemma_keyed_step(
            prev,
            row.procedure_identifier@,
            departure_step(prev[k].1, row, runways),
            departure_step(empty_departure_body(), row, runways),
        );
        lemma_row_idents_push(rows);
    }
}


/// A row whose leg lands in a runway transition of its departure: a runway
/// transition leg, or a common leg filed under a transition identifier, that
/// reaches a runway.
pub open spec fn departure_row_reaches_runway<L>(row: ProcedureRow<L>, runways: Seq<Seq<char>>) -> bool {
    let rt = row.route_type@;
    let tid = opt_view(row.transition_identifier);
    ||| departure_runway_code(rt) && (tid matches Some(t) && runway_leg_reaches(t, runways))
    ||| departure_common_code(rt) && common_leg_reaches(tid, runways)
}

/// Some row of the departure named `id` lands in a runway transition.
pub open spec fn departure_serves_runway<L>(rows: Seq<ProcedureRow<L>>, id: Seq<char>, runways: Seq<Seq<char>>) -> bool {
    exists|i: int|
        0 <= i < rows.len() && rows[i].procedure_identifier@ == id && #[trigger] departure_row_reaches_runway(
            rows[i],
            runways,
        )
}

/// The rows hold every departure completely: each departure has a row that
/// lands in a runway transition.
pub open spec fn departure_rows_complete<L>(rows: Seq<ProcedureRow<L>>, runways: Seq<Seq<char>>) -> bool {
    forall|i: int| 0 <= i < rows.len() ==> departure_serves_runway(rows, #[trigger] rows[i].procedure_identifier@, runways)
}

/// A departure step never loses a runway transition, and leaves one after a
/// row that reaches a runway.
pub proof fn lemma_departure_step_runways<L>(b: DepartureBody<L>, row: ProcedureRow<L>, runways: Seq<Seq<char>>)
    ensures
        departure_step(b, row, runways).runway.len() >= b.runway.len(),
        departure_row_reaches_runway(row, runways) ==> departure_step(b, row, runways).runway.len() >= 1,
{
    let tid = opt_view(row.transition_identifier);
    lemma_runway_step_len(b.runway, tid->0, runways, row.leg);
    lemma_common_step_len(b.runway, b.common, tid, runways, row.leg);
}

/// Every departure with a row that lands in a runway transition has at least
/// one runway transition; so with complete rows every departure has one.
pub proof fn lemma_departure_has_runway_transition<L>(rows: Seq<ProcedureRow<L>>, runways: Seq<Seq<char>>)
    ensures
        forall|i: int|
            0 <= i < departures_of(rows, runways).len() && departure_serves_runway(
                rows,
                #[trigger] departures_of(rows, runways)[i].0,
                runways,
            ) ==> departures_of(rows, runways)[i].1.runway.len() >= 1,
        departure_rows_complete(rows, runways) ==> forall|i: int|
            0 <= i < departures_of(rows, runways).len() ==> (#[trigger] departures_of(rows, runways)[i]).1.runway.len()
                >= 1,
    decreases rows.len(),
{
    let res = departures_of(rows, runways);
    lemma_one_departure_per_identifier(rows, runways);
    if rows.len() > 0 {
        let rest = rows.drop_last();
        lemma_departure_has_runway_transition(rest, runways);
        lemma_one_departure_per_identifier(rest, runways);
        let prev = departures_of(rest, runways);
        let row = rows.last();
        let id = row.procedure_identifier@;
        let k = ident_index(prev, id);
        lemma_ident_index(prev, id);
        assert forall|i: int|
            0 <= i < res.len() && departure_serves_runway(rows, #[trigger] res[i].0, runways) implies res[i].1.runway.len()
            >= 1 by {
            let w = choose|w: int|
                0 <= w < rows.len() && rows[w].procedure_identifier@ == res[i].0
                    && #[trigger] departure_row_reaches_runway(rows[w], runways);
            if w == rows.len() - 1 {
                // The last row reaches a runway; its departure is the one at `i`.
                if k < prev.len() {
                    assert(res[k].0 == id);
                    if i != k {
                        assert(res[i].0 != res[k].0);
                    }
                    lemma_departure_step_runways(prev[k].1, row, runways);
                } else {
                    assert(res[prev.len() as int].0 == id);
                    if i != prev.len() {
                        assert(res[i].0 != res[prev.len() as int].0);
                    }
                    lemma_departure_step_runways(empty_departure_body(), row, runways);
                }
            } else {
                assert(rest[w] == rows[w]);
                if i < prev.len() {
                    assert(prev[i].0 == res[i].0);
                    assert(departure_serves_runway(rest, prev[i].0, runways));
                    assert(prev[i].1.runway.len() >= 1);
                    if i == k {
                        lemma_departure_step_runways(prev[k].1, row, runways);
                    }
                } else {
                    // A new departure: its identifier had no row before, yet row `w` has it.
                    lemma_row_ident_of(rest, w);
                    lemma_ident_index_of_key(prev, id);
                }
            }
        }
        if departure_rows_complete(rows, runways) {
            assert forall|i: int| 0 <= i < res.len() implies (#[trigger] res[i]).1.runway.len() >= 1 by {
                let f = |p: (Seq<char>, DepartureBody<L>)| p.0;
                assert(res.map_values(f)[i] == res[i].0);
                assert(keys(res).contains(res[i].0));
                let r = lemma_row_of_ident(rows, res[i].0);
                assert(departure_serves_runway(rows, rows[r].procedure_identifier@, runways));
            }
        }
    }
}

/// A row that marks its departure's runway transitions as identical: a
/// common leg filed under `ALL` or under a runway number ending in `B`.
pub open spec fn marks_identical<L>(row: ProcedureRow<L>) -> bool {
    let rt = row.route_type@;
    &&& !departure_engine_out_code(rt)
    &&& !departure_runway_code(rt)
    &&& departure_common_code(rt)
    &&& fills_runways_alike(opt_view(row.transition_identifier))
}

/// Some row of the procedure `id` marks it as identical.
pub open spec fn has_identical_mark<L>(rows: Seq<ProcedureRow<L>>, id: Seq<char>) -> bool {
    exists|j: int| 0 <= j < rows.len() && #[trigger] rows[j].procedure_identifier@ == id && marks_identical(rows[j])
}

proof fn lemma_identical_mark_push<L>(rows: Seq<ProcedureRow<L>>, id: Seq<char>)
    requires
        rows.len() > 0,
    ensures
        has_identical_mark(rows, id) == (has_identical_mark(rows.drop_last(), id) || (
        rows.last().procedure_identifier@ == id && marks_identical(rows.last()))),
{
    let prev = rows.drop_last();
    if has_identical_mark(rows, id) {
        let j = choose|j: int| 0 <= j < rows.len() && #[trigger] rows[j].procedure_identifier@ == id && marks_identical(rows[j]);
        if j < rows.len() - 1 {
            assert(prev[j] == rows[j]);
            assert(prev[j].procedure_identifier@ == id);
        }
    }
    if has_identical_mark(prev, id) {
        let j = choose|j: int| 0 <= j < prev.len() && #[trigger] prev[j].procedure_identifier@ == id && marks_identical(prev[j]);
        assert(rows[j] == prev[j]);
        assert(rows[j].procedure_identifier@ == id);
    }
    if rows.last().procedure_identifier@ == id && marks_identical(rows.last()) {
        assert(rows[rows.len() - 1].procedure_identifier@ == id);
    }
}

/// A departure's runway transitions are marked identical exactly when one
/// of its rows is a common leg filed under `ALL` or under a runway number
/// ending in `B`.
pub proof fn lemma_identical_exactly_when_marked<L>(rows: Seq<ProcedureRow<L>>, runways: Seq<Seq<char>>)
    ensures
        forall|i: int|
            0 <= i < departures_of(rows, runways).len() ==> (#[trigger] departures_of(rows, runways)[i]).1.identical
                == has_identical_mark(rows, departures_of(rows, runways)[i].0),
    decreases rows.len(),
{
    if rows.len() > 0 {
        let prev = departures_of(rows.drop_last(), runways);
        let row = rows.last();
        let id = row.procedure_identifier@;
        lemma_identical_exactly_when_marked(rows.drop_last(), runways);
        lemma_one_departure_per_identifier(rows.drop_last(), runways);
        lemma_ident_index(prev, id);
        let k = ident_index(prev, id);
        let next = departures_of(rows, runways);
        assert forall|i: int| 0 <= i < next.len() implies (#[trigger] next[i]).1.identical == has_identical_mark(
            rows,
            next[i].0,
        ) by {
            lemma_identical_mark_push(rows, next[i].0);
            if k < prev.len() {
                if i == k {
                    assert(next[i].0 == id);
                } else {
                    assert(next[i] == prev[i]);
                    assert(prev[i].0 != prev[k].0);
                }
            } else {
                if i < prev.len() {
                    assert(next[i] == prev[i]);
                    assert(prev[i].0 != id);
                } else {
                    assert(!has_identical_mark(rows.drop_last(), id)) by {
                        if has_identical_mark(rows.drop_last(), id) {
                            let j = choose|j: int| 0 <= j < rows.drop_last().len()
                                && #[trigger] rows.drop_last()[j].procedure_identifier@ == id
                                && marks_identical(rows.drop_last()[j]);
                            lemma_one_departure_per_identifier(rows.drop_last(), runways);
                            lemma_departure_of_each_row(rows.drop_last(), runways, j);
                        }
                    }
                }
            }
        }
    }
}

/// Every row's procedure has a departure.
proof fn lemma_departure_of_each_row<L>(rows: Seq<ProcedureRow<L>>, runways: Seq<Seq<char>>, j: int)
    requires
        0 <= j < rows.len(),
    ensures
        exists|i: int| 0 <= i < departures_of(rows, runways).len() && #[trigger] departures_of(rows, runways)[i].0
            == rows[j].procedure_identifier@,
{
    lemma_one_departure_per_identifier(rows, runways);
    let f = |r: ProcedureRow<L>| r.procedure_identifier@;
    assert(rows.map_values(f)[j] == rows[j].procedure_identifier@);
    assert(row_idents(rows).contains(rows[j].procedure_identifier@));
    assert(keys(departures_of(rows, runways)).contains(rows[j].procedure_identifier@));
    let g = |p: (Seq<char>, DepartureBody<L>)| p.0;
    let i = choose|i: int| 0 <= i < departures_of(rows, runways).map_values(g).len()
        && departures_of(rows, runways).map_values(g)[i] == rows[j].procedure_identifier@;
    assert(departures_of(rows, runways)[i].0 == rows[j].procedure_identifier@);
}

} // verus!
