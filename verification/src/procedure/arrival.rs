use vstd::prelude::*;

use super::{
    add_leg, apply_common_leg, apply_enroute_transition_leg, apply_runway_transition_leg, common_leg_step,
    ident_index, is_all, lemma_ident_index, lemma_ident_index_absent, lemma_ident_index_found, opt_view,
    route_is, runway_idents, runway_prefixes_ok, runway_transition_step, transitions_view, ProcedureRow,
    Transition, TransitionView, distinct_keys, keys, row_idents, lemma_keyed_step, lemma_row_idents_push,
    runway_leg_reaches, common_leg_reaches, lemma_runway_step_len, lemma_common_step_len,
    lemma_ident_index_of_key, lemma_row_ident_of, lemma_row_of_ident, runway_prefixes_check, add_leg_each,
    add_leg_matching,
};
use crate::text::has_char_at;
use crate::text::is_all_keyword;
use crate::text::is_single_char;

verus! {

/// An arrival procedure (STAR) of an airport.
pub struct Arrival<L> {
    /// Identifies the arrival within the airport it serves.
    pub ident: String,
    /// The enroute transitions of the arrival.
    pub enroute_transitions: Vec<Transition<L>>,
    /// Legs shared by every runway the arrival serves.
    pub common_legs: Vec<L>,
    /// One transition per runway the arrival serves.
    pub runway_transitions: Vec<Transition<L>>,
}

/// The abstract value of an arrival apart from its identifier.
#[verifier::ext_equal]
pub struct ArrivalBody<L> {
    pub enroute: Seq<TransitionView<L>>,
    pub common: Seq<L>,
    pub runway: Seq<TransitionView<L>>,
}

pub open spec fn arrival_view<L>(a: Arrival<L>) -> (Seq<char>, ArrivalBody<L>) {
    (
        a.ident@,
        ArrivalBody {
            enroute: transitions_view(a.enroute_transitions@),
            common: a.common_legs@,
            runway: transitions_view(a.runway_transitions@),
        },
    )
}

pub open spec fn arrivals_view<L>(s: Seq<Arrival<L>>) -> Seq<(Seq<char>, ArrivalBody<L>)> {
    s.map_values(|a: Arrival<L>| arrival_view(a))
}

pub open spec fn empty_arrival_body<L>() -> ArrivalBody<L> {
    ArrivalBody { enroute: seq![], common: seq![], runway: seq![] }
}

/// Route types of enroute transition legs of an arrival: `1`, `4`, `7`, `F`.
pub open spec fn arrival_enroute_code(rt: Seq<char>) -> bool {
    route_is(rt, '1') || route_is(rt, '4') || route_is(rt, '7') || route_is(rt, 'F')
}

/// Route types of common legs of an arrival: `2`, `5`, `8`, `M`.
pub open spec fn arrival_common_code(rt: Seq<char>) -> bool {
    route_is(rt, '2') || route_is(rt, '5') || route_is(rt, '8') || route_is(rt, 'M')
}

/// Route types of runway transition legs of an arrival: `3`, `6`, `9`, `S`.
pub open spec fn arrival_runway_code(rt: Seq<char>) -> bool {
    route_is(rt, '3') || route_is(rt, '6') || route_is(rt, '9') || route_is(rt, 'S')
}

/// A row that an arrival can be assembled from: a known route type, a
/// transition identifier where the route type needs one, and identifiers
/// whose runway number can be compared where that comparison is made.
pub open spec fn arrival_row_ok<L>(row: ProcedureRow<L>, runways: Seq<Seq<char>>) -> bool {
    let rt = row.route_type@;
    let tid = opt_view(row.transition_identifier);
    ||| arrival_enroute_code(rt) && tid is Some
    ||| arrival_common_code(rt) && (tid matches Some(t) ==> (!is_all(t) ==> runway_prefixes_ok(
        t,
        runways,
    )))
    ||| arrival_runway_code(rt) && (tid matches Some(t) && runway_prefixes_ok(t, runways))
}

/// Tells whether an arrival can be assembled from `row` with these runways.
pub fn arrival_row_check<L>(row: &ProcedureRow<L>, runways: &Vec<String>) -> (res: bool)
    ensures
        res == arrival_row_ok(*row, runway_idents(runways@)),
{
    let rt = row.route_type.as_str();
    let tid = &row.transition_identifier;
    if is_single_char(rt, '1') || is_single_char(rt, '4') || is_single_char(rt, '7') || is_single_char(rt, 'F') {
        tid.is_some()
    } else if is_single_char(rt, '2') || is_single_char(rt, '5') || is_single_char(rt, '8')
        || is_single_char(rt, 'M') {
        match tid {
            Some(t) => is_all_keyword(t.as_str()) || runway_prefixes_check(t.as_str(), runways),
            None => true,
        }
    } else if is_single_char(rt, '3') || is_single_char(rt, '6') || is_single_char(rt, '9')
        || is_single_char(rt, 'S') {
        match tid {
            Some(t) => runway_prefixes_check(t.as_str(), runways),
            None => false,
        }
    } else {
        false
    }
}

/// An arrival after one more of its rows.
pub open spec fn arrival_step<L>(b: ArrivalBody<L>, row: ProcedureRow<L>, runways: Seq<Seq<char>>) -> ArrivalBody<L> {
    let rt = row.route_type@;
    let tid = opt_view(row.transition_identifier);
    if arrival_enroute_code(rt) {
        ArrivalBody {
            enroute: add_leg(b.enroute, tid->0, row.leg),
            common: b.common,
            runway: b.runway,
        }
    } else if arrival_common_code(rt) {
        let (runway, common) = common_leg_step(b.runway, b.common, tid, runways, row.leg);
        ArrivalBody { enroute: b.enroute, common, runway }
    } else {
        ArrivalBody {
            enroute: b.enroute,
            common: b.common,
            runway: runway_transition_step(b.runway, tid->0, runways, row.leg),
        }
    }
}

/// What a row does to its arrival, by the route type code table of arrival
/// rows: `1`, `4`, `7` and `F` are enroute transition legs; `2`, `5`, `8` and
/// `M` are common legs; `3`, `6`, `9` and `S` are runway transition legs. An
/// enroute transition leg goes to the enroute transition it names. A common
/// leg without transition identifier is a common leg; under `ALL` it goes to
/// every runway, under a number ending in `B` to the runways with that
/// number, under another identifier to that runway transition. A runway
/// transition leg under `t` goes to the runway transition `t`, or to every
/// runway with its number when `t` has `B` as fifth character. Nothing else
/// changes.
pub proof fn lemma_arrival_route_types<L>(b: ArrivalBody<L>, row: ProcedureRow<L>, runways: Seq<Seq<char>>)
    ensures
        ({
            let rt = row.route_type@;
            let tid = opt_view(row.transition_identifier);
            let next = arrival_step(b, row, runways);
            &&& (rt == seq!['1'] || rt == seq!['4'] || rt == seq!['7'] || rt == seq!['F']) ==> (tid matches Some(t)
                ==> next == (ArrivalBody { enroute: add_leg(b.enroute, t, row.leg), ..b }))
            &&& (rt == seq!['2'] || rt == seq!['5'] || rt == seq!['8'] || rt == seq!['M']) ==> {
                &&& next.enroute == b.enroute
                &&& match tid {
                    None => next.runway == b.runway && next.common == b.common.push(row.leg),
                    Some(t) => {
                        &&& next.common == b.common
                        &&& next.runway == if t == seq!['A', 'L', 'L'] {
                            add_leg_each(b.runway, runways, row.leg)
                        } else if has_char_at(t, 4, 'B') {
                            add_leg_matching(b.runway, runways, t, row.leg)
                        } else {
                            add_leg(b.runway, t, row.leg)
                        }
                    },
                }
            }
            &&& (rt == seq!['3'] || rt == seq!['6'] || rt == seq!['9'] || rt == seq!['S']) ==> (tid matches Some(t)
                ==> next == (ArrivalBody {
                runway: if has_char_at(t, 4, 'B') {
                    add_leg_matching(b.runway, runways, t, row.leg)
                } else {
                    add_leg(b.runway, t, row.leg)
                },
                ..b
            }))
        }),
{
    assert(seq!['1'].len() == 1 && seq!['1'][0] == '1');
    assert(seq!['2'].len() == 1 && seq!['2'][0] == '2');
    assert(seq!['3'].len() == 1 && seq!['3'][0] == '3');
    assert(seq!['4'].len() == 1 && seq!['4'][0] == '4');
    assert(seq!['5'].len() == 1 && seq!['5'][0] == '5');
    assert(seq!['6'].len() == 1 && seq!['6'][0] == '6');
    assert(seq!['7'].len() == 1 && seq!['7'][0] == '7');
    assert(seq!['8'].len() == 1 && seq!['8'][0] == '8');
    assert(seq!['9'].len() == 1 && seq!['9'][0] == '9');
    assert(seq!['F'].len() == 1 && seq!['F'][0] == 'F');
    assert(seq!['M'].len() == 1 && seq!['M'][0] == 'M');
    assert(seq!['S'].len() == 1 && seq!['S'][0] == 'S');
}

/// A row acts on the arrival of its procedure only: that arrival (an empty
/// one, added at the end, when the procedure is new) takes the step of the
/// row, and every other arrival stays as it was.
pub proof fn lemma_arrivals_of_push<L>(rows: Seq<ProcedureRow<L>>, row: ProcedureRow<L>, runways: Seq<Seq<char>>)
    ensures
        ({
            let prev = arrivals_of(rows, runways);
            let next = arrivals_of(rows.push(row), runways);
            let id = row.procedure_identifier@;
            let k = ident_index(prev, id);
            let body = if k < prev.len() { prev[k].1 } else { empty_arrival_body() };
            &&& next.len() == if k < prev.len() { prev.len() } else { prev.len() + 1 }
            &&& next[k] == (id, arrival_step(body, row, runways))
            &&& forall|j: int| 0 <= j < prev.len() && j != k ==> #[trigger] next[j] == prev[j]
            &&& forall|j: int| 0 <= j < k ==> prev[j].0 != id
        }),
{
    let rs = rows.push(row);
    assert(rs.drop_last() =~= rows);
    assert(rs.last() == row);
    lemma_ident_index(arrivals_of(rows, runways), row.procedure_identifier@);
}

/// The arrivals assembled from `rows`, one per procedure identifier in the
/// order of first appearance, each built from its rows in order.
pub open spec fn arrivals_of<L>(rows: Seq<ProcedureRow<L>>, runways: Seq<Seq<char>>) -> Seq<
    (Seq<char>, ArrivalBody<L>),
>
    decreases rows.len(),
{
    if rows.len() == 0 {
        seq![]
    } else {
        let prev = arrivals_of(rows.drop_last(), runways);
        let row = rows.last();
        let k = ident_index(prev, row.procedure_identifier@);
        if k < prev.len() {
            prev.update(k, (prev[k].0, arrival_step(prev[k].1, row, runways)))
        } else {
            prev.push((row.procedure_identifier@, arrival_step(empty_arrival_body(), row, runways)))
        }
    }
}

/// The arrival named `ident`, added empty at the end when there is none yet.
fn arrival_entry<'a, L>(arrivals: &'a mut Vec<Arrival<L>>, ident: &String) -> (res: &'a mut Arrival<L>)
    ensures
        ({
            let k = ident_index(arrivals_view(old(arrivals)@), ident@);
            if k < old(arrivals).len() {
                &&& *res == old(arrivals)@[k]
                &&& final(arrivals)@ == old(arrivals)@.update(k, *final(res))
            } else {
                &&& arrival_view(*res) == (ident@, empty_arrival_body::<L>())
                &&& final(arrivals)@ == old(arrivals)@.push(*final(res))
            }
        }),
{
    let ghost av = arrivals_view(arrivals@);
    let mut i: usize = 0;
    while i < arrivals.len()
        invariant
            i <= arrivals.len(),
            arrivals@ == old(arrivals)@,
            av == arrivals_view(arrivals@),
            forall|j: int| 0 <= j < i ==> av[j].0 != ident@,
        decreases arrivals.len() - i,
    {
        if arrivals[i].ident == *ident {
            proof {
                lemma_ident_index_found(av, ident@, i as int);
            }
            return &mut arrivals[i];
        }
        i = i + 1;
    }
    proof {
        lemma_ident_index_absent(av, ident@);
    }
    arrivals.push(
        Arrival {
            ident: ident.clone(),
            enroute_transitions: Vec::new(),
            common_legs: Vec::new(),
            runway_transitions: Vec::new(),
        },
    );
    proof {
        assert(transitions_view(Seq::<Transition<L>>::empty()) =~= Seq::<TransitionView<L>>::empty());
    }
    let last = arrivals.len() - 1;
    &mut arrivals[last]
}

/// Assembles the arrival rows of one airport into arrivals.
///
/// Rows are grouped by procedure identifier; within an arrival, enroute
/// transition legs go to their enroute transition, common legs to the common
/// legs or to the runway transitions they name, and runway transition legs to
/// their runway transition. A transition identifier ending in `B` stands for
/// every runway with that number, and `ALL` for every runway of the airport.
/// Arrivals come in the order in which their first row appears.
pub fn map_arrivals<L: Copy>(data: Vec<ProcedureRow<L>>, runways: Vec<String>) -> (res: Vec<Arrival<L>>)
    requires
        forall|i: int| 0 <= i < data.len() ==> #[trigger] arrival_row_ok(data@[i], runway_idents(runways@)),
    ensures
        arrivals_view(res@) == arrivals_of(data@, runway_idents(runways@)),
        forall|i: int|
            0 <= i < res.len() && arrival_serves_runway(data@, #[trigger] res@[i].ident@, runway_idents(runways@))
                ==> res@[i].runway_transitions.len() >= 1,
        arrival_rows_complete(data@, runway_idents(runways@)) ==> forall|i: int|
            0 <= i < res.len() ==> (#[trigger] res@[i]).runway_transitions.len() >= 1,
{
    let ghost rws = runway_idents(runways@);
    let mut arrivals: Vec<Arrival<L>> = Vec::new();
    let mut i: usize = 0;
    proof {
        assert(data@.take(0) =~= Seq::<ProcedureRow<L>>::empty());
        assert(arrivals_view(arrivals@) =~= Seq::<(Seq<char>, ArrivalBody<L>)>::empty());
    }
    while i < data.len()
        invariant
            i <= data.len(),
            rws == runway_idents(runways@),
            forall|j: int| 0 <= j < data.len() ==> #[trigger] arrival_row_ok(data@[j], rws),
            arrivals_view(arrivals@) == arrivals_of(data@.take(i as int), rws),
        decreases data.len() - i,
    {
        let row = &data[i];
        assert(arrival_row_ok(data@[i as int], rws));
        let ghost prev = arrivals_view(arrivals@);
        let ghost k = ident_index(prev, row.procedure_identifier@);
        proof {
            lemma_ident_index(prev, row.procedure_identifier@);
        }
        let arrival = arrival_entry(&mut arrivals, &row.procedure_identifier);
        let ghost before = arrival_view(*arrival);
        let rt = row.route_type.as_str();
        let tid = match &row.transition_identifier {
            Some(t) => Some(t.clone()),
            None => None,
        };
        assert(opt_view(tid) == opt_view(data@[i as int].transition_identifier));
        if is_single_char(rt, '1') || is_single_char(rt, '4') || is_single_char(rt, '7')
            || is_single_char(rt, 'F') {
            match tid {
                Some(t) => apply_enroute_transition_leg(row.leg, t, &mut arrival.enroute_transitions),
                None => {},
            }
        } else if is_single_char(rt, '2') || is_single_char(rt, '5') || is_single_char(rt, '8')
            || is_single_char(rt, 'M') {
            apply_common_leg(
                row.leg,
                tid,
                &mut arrival.runway_transitions,
                &mut arrival.common_legs,
                &runways,
            );
        } else {
            match tid {
                Some(t) => apply_runway_transition_leg(
                    row.leg,
                    t,
                    &mut arrival.runway_transitions,
                    &runways,
                ),
                None => {},
            }
        }
        proof {
            assert(arrival_view(*arrival).1 =~= arrival_step(before.1, data@[i as int], rws));
            let taken = data@.take(i + 1);
            assert(taken.drop_last() =~= data@.take(i as int));
            assert(taken.last() == data@[i as int]);
            if k < prev.len() {
                assert(arrivals_view(arrivals@) =~= prev.update(
                    k,
                    (prev[k].0, arrival_step(prev[k].1, data@[i as int], rws)),
                ));
            } else {
                assert(arrivals_view(arrivals@) =~= prev.push(
                    (
                        data@[i as int].procedure_identifier@,
                        arrival_step(empty_arrival_body(), data@[i as int], rws),
                    ),
                ));
            }
        }
        i = i + 1;
    }
    proof {
        assert(data@.take(data.len() as int) =~= data@);
        lemma_arrival_has_runway_transition(data@, rws);
        let av = arrivals_of(data@, rws);
        assert forall|i: int|
            0 <= i < arrivals.len() && arrival_serves_runway(data@, #[trigger] arrivals@[i].ident@, rws)
                implies arrivals@[i].runway_transitions.len() >= 1 by {
            assert(av[i] == arrival_view(arrivals@[i]));
            assert(arrival_serves_runway(data@, av[i].0, rws));
        }
        if arrival_rows_complete(data@, rws) {
            assert forall|i: int| 0 <= i < arrivals.len() implies (
            #[trigger] arrivals@[i]).runway_transitions.len() >= 1 by {
                assert(av[i] == arrival_view(arrivals@[i]));
                assert(av[i].1.runway.len() >= 1);
            }
        }
    }
    arrivals
}


/// Assembling arrivals yields one arrival per procedure identifier of the
/// rows, and no other.
pub proof fn lemma_one_arrival_per_identifier<L>(rows: Seq<ProcedureRow<L>>, runways: Seq<Seq<char>>)
    ensures
        distinct_keys(arrivals_of(rows, runways)),
        keys(arrivals_of(rows, runways)) == row_idents(rows),
    decreases rows.len(),
{
    if rows.len() == 0 {
        assert(keys(arrivals_of(rows, runways)) =~= Set::<Seq<char>>::empty());
        assert(row_idents(rows) =~= Set::<Seq<char>>::empty());
    } else {
        lemma_one_arrival_per_identifier(rows.drop_last(), runways);
        let prev = arrivals_of(rows.drop_last(), runways);
        let row = rows.last();
        let k = ident_index(prev, row.procedure_identifier@);
        lemma_keyed_step(
            prev,
            row.procedure_identifier@,
            arrival_step(prev[k].1, row, runways),
            arrival_step(empty_arrival_body(), row, runways),
        );
        lemma_row_idents_push(rows);
    }
}

/// A row whose leg lands in a runway transition of its arrival: a runway
/// transition leg, or a common leg filed under a transition identifier, that
/// reaches a runway.
pub open spec fn arrival_row_reaches_runway<L>(row: ProcedureRow<L>, runways: Seq<Seq<char>>) -> bool {
    let rt = row.route_type@;
    let tid = opt_view(row.transition_identifier);
    ||| arrival_runway_code(rt) && (tid matches Some(t) && runway_leg_reaches(t, runways))
    ||| arrival_common_code(rt) && common_leg_reaches(tid, runways)
}

/// Some row of the arrival named `id` lands in a runway transition.
pub open spec fn arrival_serves_runway<L>(rows: Seq<ProcedureRow<L>>, id: Seq<char>, runways: Seq<Seq<char>>) -> bool {
    exists|i: int|
        0 <= i < rows.len() && rows[i].procedure_identifier@ == id && #[trigger] arrival_row_reaches_runway(
            rows[i],
            runways,
        )
}

/// The rows hold every arrival completely: each arrival has a row that
/// lands in a runway transition.
pub open spec fn arrival_rows_complete<L>(rows: Seq<ProcedureRow<L>>, runways: Seq<Seq<char>>) -> bool {
    forall|i: int| 0 <= i < rows.len() ==> arrival_serves_runway(rows, #[trigger] rows[i].procedure_identifier@, runways)
}

/// An arrival step never loses a runway transition, and leaves one after a
/// row that reaches a runway.
pub proof fn lemma_arrival_step_runways<L>(b: ArrivalBody<L>, row: ProcedureRow<L>, runways: Seq<Seq<char>>)
    ensures
        arrival_step(b, row, runways).runway.len() >= b.runway.len(),
        arrival_row_reaches_runway(row, runways) ==> arrival_step(b, row, runways).runway.len() >= 1,
{
    let tid = opt_view(row.transition_identifier);
    lemma_runway_step_len(b.runway, tid->0, runways, row.leg);
    lemma_common_step_len(b.runway, b.common, tid, runways, row.leg);
}

/// Every arrival with a row that lands in a runway transition has at least
/// one runway transition; so with complete rows every arrival has one.
pub proof fn lemma_arrival_has_runway_transition<L>(rows: Seq<ProcedureRow<L>>, runways: Seq<Seq<char>>)
    ensures
        forall|i: int|
            0 <= i < arrivals_of(rows, runways).len() && arrival_serves_runway(
                rows,
                #[trigger] arrivals_of(rows, runways)[i].0,
                runways,
            ) ==> arrivals_of(rows, runways)[i].1.runway.len() >= 1,
        arrival_rows_complete(rows, runways) ==> forall|i: int|
            0 <= i < arrivals_of(rows, runways).len() ==> (#[trigger] arrivals_of(rows, runways)[i]).1.runway.len()
                >= 1,
    decreases rows.len(),
{
    let res = arrivals_of(rows, runways);
    lemma_one_arrival_per_identifier(rows, runways);
    if rows.len() > 0 {
        let rest = rows.drop_last();
        lemma_arrival_has_runway_transition(rest, runways);
        lemma_one_arrival_per_identifier(rest, runways);
        let prev = arrivals_of(rest, runways);
        let row = rows.last();
        let id = row.procedure_identifier@;
        let k = ident_index(prev, id);
        lemma_ident_index(prev, id);
        assert forall|i: int|
            0 <= i < res.len() && arrival_serves_runway(rows, #[trigger] res[i].0, runways) implies res[i].1.runway.len()
            >= 1 by {
            let w = choose|w: int|
                0 <= w < rows.len() && rows[w].procedure_identifier@ == res[i].0
                    && #[trigger] arrival_row_reaches_runway(rows[w], runways);
            if w == rows.len() - 1 {
                // The last row reaches a runway; its arrival is the one at `i`.
                if k < prev.len() {
                    assert(res[k].0 == id);
                    if i != k {
                        assert(res[i].0 != res[k].0);
                    }
                    lemma_arrival_step_runways(prev[k].1, row, runways);
                } else {
                    assert(res[prev.len() as int].0 == id);
                    if i != prev.len() {
                        assert(res[i].0 != res[prev.len() as int].0);
                    }
                    lemma_arrival_step_runways(empty_arrival_body(), row, runways);
                }
            } else {
                assert(rest[w] == rows[w]);
                if i < prev.len() {
                    assert(prev[i].0 == res[i].0);
                    assert(arrival_serves_runway(rest, prev[i].0, runways));
                    assert(prev[i].1.runway.len() >= 1);
                    if i == k {
                        lemma_arrival_step_runways(prev[k].1, row, runways);
                    }
                } else {
                    // A new arrival: its identifier had no row before, yet row `w` has it.
                    lemma_row_ident_of(rest, w);
                    lemma_ident_index_of_key(prev, id);
                }
            }
        }
        if arrival_rows_complete(rows, runways) {
            assert forall|i: int| 0 <= i < res.len() implies (#[trigger] res[i]).1.runway.len() >= 1 by {
                let f = |p: (Seq<char>, ArrivalBody<L>)| p.0;
                assert(res.map_values(f)[i] == res[i].0);
                assert(keys(res).contains(res[i].0));
                let r = lemma_row_of_ident(rows, res[i].0);
                assert(arrival_serves_runway(rows, rows[r].procedure_identifier@, runways));
            }
        }
    }
}

} // verus!
