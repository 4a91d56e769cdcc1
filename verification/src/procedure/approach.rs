use vstd::prelude::*;
use vstd::string::*;

use super::{
    add_leg, apply_enroute_transition_leg, ident_index, lemma_ident_index, lemma_ident_index_absent,
    lemma_ident_index_found, opt_view, route_is, transitions_view, ProcedureRow, Transition,
    TransitionView, distinct_keys, keys, row_idents, lemma_keyed_step, lemma_row_idents_push,
};
use crate::enums::{approach_type_code, lemma_approach_type_codes, ApproachType};
use crate::text::{char_at_is, has_char_at, is_single_char};

verus! {

/// The capture groups that `regex::Regex::captures` reports for `pattern` on
/// `text` (group 0 first; `None` for a group that did not take part), or
/// `None` when the pattern does not compile or does not match.
pub uninterp spec fn regex_capture_groups(pattern: Seq<char>, text: Seq<char>) -> Option<Seq<Option<Seq<char>>>>;

pub open spec fn groups_view(g: Option<Vec<Option<String>>>) -> Option<Seq<Option<Seq<char>>>> {
    match g {
        Some(v) => Some(v@.map_values(|o: Option<String>| opt_view(o))),
        None => None,
    }
}

/// Compiles `pattern` with `regex::Regex::new` and runs `Regex::captures` on
/// `text`, returning every capture group as an owned string.
///
/// The contract only ties the result to the name `regex_capture_groups` of
/// the two arguments: what the pattern matches is the regex crate's to decide.
#[verifier::external_body]
fn regex_captures(pattern: &str, text: &str) -> (res: Option<Vec<Option<String>>>)
    ensures
        groups_view(res) == regex_capture_groups(pattern@, text@),
{
    let re = regex::Regex::new(pattern).ok()?;
    let caps = re.captures(text)?;
    Some(caps.iter().map(|m| m.map(|m| m.as_str().to_string())).collect())
}

/// The shape of a runway approach identifier: an approach type letter, a
/// runway number with an optional `L`, `C` or `R`, an optional `-`, and an
/// optional multiple indicator letter.
pub open spec fn approach_ident_pattern() -> Seq<char> {
    "^([A-Z])([0-9]{2}[LCR]?)-?([A-Z])?$"@
}

/// The three parts of an approach identifier, read from capture groups 1, 2
/// and 3 of a match; `None` without a match, or when group 1 or 2 is missing.
pub open spec fn approach_ident_parts(groups: Option<Seq<Option<Seq<char>>>>) -> Option<
    (Seq<char>, Seq<char>, Option<Seq<char>>),
> {
    match groups {
        Some(g) => if g.len() > 2 && g[1] is Some && g[2] is Some {
            Some((g[1]->0, g[2]->0, if g.len() > 3 { g[3] } else { None }))
        } else {
            None
        },
        None => None,
    }
}

pub open spec fn split_view(r: Option<(String, String, Option<String>)>) -> Option<
    (Seq<char>, Seq<char>, Option<Seq<char>>),
> {
    match r {
        Some((a, b, c)) => Some((a@, b@, opt_view(c))),
        None => None,
    }
}

/// Reads the approach type character, the runway identifier and the multiple
/// indicator out of the capture groups of an approach identifier.
pub fn approach_ident_from_groups(groups: Option<Vec<Option<String>>>) -> (res: Option<
    (String, String, Option<String>),
>)
    ensures
        split_view(res) == approach_ident_parts(groups_view(groups)),
{
    match groups {
        Some(g) => {
            if g.len() > 2 {
                let first = match &g[1] {
                    Some(s) => s.clone(),
                    None => {
                        return None;
                    },
                };
                let second = match &g[2] {
                    Some(s) => s.clone(),
                    None => {
                        return None;
                    },
                };
                let third = if g.len() > 3 {
                    match &g[3] {
                        Some(s) => Some(s.clone()),
                        None => None,
                    }
                } else {
                    None
                };
                proof {
                    let gv = groups_view(Some(g))->0;
                    assert(gv[1] == opt_view(g@[1]));
                    assert(gv[2] == opt_view(g@[2]));
                    if g.len() > 3 {
                        assert(gv[3] == opt_view(g@[3]));
                    }
                }
                Some((first, second, third))
            } else {
                None
            }
        },
        None => None,
    }
}

/// Splits a runway approach identifier such as `I08L` or `R12-M` into the
/// approach type character, the runway identifier and the multiple indicator;
/// `None` when the identifier does not have that shape.
pub fn split_approach_ident(ident: String) -> (res: Option<(String, String, Option<String>)>)
    ensures
        split_view(res) == approach_ident_parts(
            regex_capture_groups(approach_ident_pattern(), ident@),
        ),
{
    let pattern = "^([A-Z])([0-9]{2}[LCR]?)-?([A-Z])?$";
    let groups = regex_captures(pattern, ident.as_str());
    approach_ident_from_groups(groups)
}

/// An approach procedure of an airport.
pub struct Approach<L> {
    /// Identifies the approach within the airport, such as `I08L`, `R12-M` or `RNVC`.
    pub ident: String,
    /// The transitions (VIAs) of the approach.
    pub transitions: Vec<Transition<L>>,
    /// The legs of the approach itself.
    pub legs: Vec<L>,
    /// The legs of the missed approach.
    pub missed_legs: Vec<L>,
    /// The runway the approach is for, such as `RW27L`, when its identifier names one.
    pub runway_ident: Option<String>,
    /// The type of approach, taken from the route type of its legs.
    pub approach_type: ApproachType,
}

/// The abstract value of an approach apart from its identifier.
#[verifier::ext_equal]
pub struct ApproachBody<L> {
    pub transitions: Seq<TransitionView<L>>,
    pub legs: Seq<L>,
    pub missed: Seq<L>,
    pub runway_ident: Option<Seq<char>>,
    pub approach_type: ApproachType,
}

pub open spec fn approach_view<L>(a: Approach<L>) -> (Seq<char>, ApproachBody<L>) {
    (
        a.ident@,
        ApproachBody {
            transitions: transitions_view(a.transitions@),
            legs: a.legs@,
            missed: a.missed_legs@,
            runway_ident: opt_view(a.runway_ident),
            approach_type: a.approach_type,
        },
    )
}

pub open spec fn approaches_view<L>(s: Seq<Approach<L>>) -> Seq<(Seq<char>, ApproachBody<L>)> {
    s.map_values(|a: Approach<L>| approach_view(a))
}

/// The runway identifier of an approach: `RW` followed by the runway part of
/// its identifier, when the identifier has the runway approach shape.
pub open spec fn approach_runway_ident(ident: Seq<char>) -> Option<Seq<char>> {
    match approach_ident_parts(regex_capture_groups(approach_ident_pattern(), ident)) {
        Some((_, rw, _)) => Some(seq!['R', 'W'] + rw),
        None => None,
    }
}

/// A new approach: no legs yet and the FMS type until a leg tells otherwise.
pub open spec fn new_approach_body<L>(ident: Seq<char>) -> ApproachBody<L> {
    ApproachBody {
        transitions: seq![],
        legs: seq![],
        missed: seq![],
        runway_ident: approach_runway_ident(ident),
        approach_type: ApproachType::Fms,
    }
}

/// The row's waypoint description marks the start of the missed approach.
pub open spec fn starts_missed(row_desc: Option<Seq<char>>) -> bool {
    row_desc matches Some(d) && has_char_at(d, 2, 'M')
}

/// Approaches assembled so far, and whether the missed approach has started.
/// The flag is cleared whenever a row starts a new approach.
pub open spec fn approaches_state<L>(rows: Seq<ProcedureRow<L>>) -> (Seq<(Seq<char>, ApproachBody<L>)>, bool)
    decreases rows.len(),
{
    if rows.len() == 0 {
        (seq![], false)
    } else {
        let (prev, missed) = approaches_state(rows.drop_last());
        let row = rows.last();
        let k = ident_index(prev, row.procedure_identifier@);
        let missed_now = (k < prev.len() && missed) || starts_missed(
            opt_view(row.waypoint_description_code),
        );
        let body = if k < prev.len() {
            prev[k].1
        } else {
            new_approach_body(row.procedure_identifier@)
        };
        let next = approach_step(body, row, missed_now);
        if k < prev.len() {
            (prev.update(k, (prev[k].0, next)), missed_now)
        } else {
            (prev.push((row.procedure_identifier@, next)), missed_now)
        }
    }
}

/// An approach after one more of its rows: route type `A` is a transition leg,
/// `Z` a missed approach leg, and any other leg belongs to the missed approach
/// once it has started, and otherwise to the approach, whose type it sets.
pub open spec fn approach_step<L>(b: ApproachBody<L>, row: ProcedureRow<L>, missed: bool) -> ApproachBody<L> {
    let rt = row.route_type@;
    if route_is(rt, 'A') {
        ApproachBody {
            transitions: add_leg(b.transitions, opt_view(row.transition_identifier)->0, row.leg),
            ..b
        }
    } else if route_is(rt, 'Z') || missed {
        ApproachBody { missed: b.missed.push(row.leg), ..b }
    } else {
        ApproachBody {
            legs: b.legs.push(row.leg),
            approach_type: choose|t: ApproachType| rt == seq![approach_type_code(t)],
            ..b
        }
    }
}

/// A leg of the approach itself whose route type is the code of approach
/// type `t` (such as `L` for a localizer approach, see
/// `lemma_approach_type_codes`) is appended to the approach legs and makes
/// the approach of type `t`; its transitions and missed approach stay.
pub proof fn lemma_approach_leg_sets_type<L>(b: ApproachBody<L>, row: ProcedureRow<L>, t: ApproachType)
    requires
        row.route_type@ == seq![approach_type_code(t)],
    ensures
        approach_step(b, row, false) == (ApproachBody {
            legs: b.legs.push(row.leg),
            approach_type: t,
            ..b
        }),
{
    lemma_approach_type_codes();
    let rt = row.route_type@;
    assert(rt.len() == 1 && rt[0] == approach_type_code(t));
    assert(!route_is(rt, 'A'));
    assert(!route_is(rt, 'Z'));
    let c = choose|u: ApproachType| rt == seq![approach_type_code(u)];
    assert(rt == seq![approach_type_code(c)]);
    assert(seq![approach_type_code(c)][0] == approach_type_code(c));
}

/// The route types of approach rows: a leg with route type `A` goes to the
/// transition (VIA) it names; a leg with route type `Z`, and every leg once
/// the missed approach has started, goes to the missed approach; nothing else
/// of the approach changes.
pub proof fn lemma_approach_route_types<L>(b: ApproachBody<L>, row: ProcedureRow<L>, missed: bool)
    ensures
        row.route_type@ == seq!['A'] ==> (opt_view(row.transition_identifier) matches Some(t) ==> approach_step(
            b,
            row,
            missed,
        ) == (ApproachBody { transitions: add_leg(b.transitions, t, row.leg), ..b })),
        (row.route_type@ == seq!['Z'] || (missed && row.route_type@ != seq!['A'])) ==> approach_step(b, row, missed)
            == (ApproachBody { missed: b.missed.push(row.leg), ..b }),
{
    assert(seq!['A'].len() == 1 && seq!['A'][0] == 'A');
    assert(seq!['Z'].len() == 1 && seq!['Z'][0] == 'Z');
    if route_is(row.route_type@, 'A') {
        assert(row.route_type@ =~= seq!['A']);
    }
}

/// The missed approach starts at a row whose waypoint description code has
/// `M` as third character.
pub proof fn lemma_missed_approach_code(desc: Option<Seq<char>>)
    ensures
        starts_missed(desc) <==> (desc matches Some(d) && d.len() > 2 && d[2] == 'M'),
{
}

/// What the next row needs after `prefix`: a transition identifier on a
/// transition leg, and a known approach type code on a leg of the approach itself.
pub open spec fn approach_row_ok<L>(prefix: Seq<ProcedureRow<L>>, row: ProcedureRow<L>) -> bool {
    let (prev, missed) = approaches_state(prefix);
    let k = ident_index(prev, row.procedure_identifier@);
    let missed_now = (k < prev.len() && missed) || starts_missed(opt_view(row.waypoint_description_code));
    let rt = row.route_type@;
    if route_is(rt, 'A') {
        row.transition_identifier is Some
    } else if route_is(rt, 'Z') || missed_now {
        true
    } else {
        exists|t: ApproachType| rt == seq![approach_type_code(t)]
    }
}

/// Position of the approach named `ident`, or the length when there is none.
fn approach_position<L>(approaches: &Vec<Approach<L>>, ident: &String) -> (k: usize)
    ensures
        k as int == ident_index(approaches_view(approaches@), ident@),
{
    let ghost av = approaches_view(approaches@);
    let mut i: usize = 0;
    while i < approaches.len()
        invariant
            i <= approaches.len(),
            av == approaches_view(approaches@),
            forall|j: int| 0 <= j < i ==> av[j].0 != ident@,
        decreases approaches.len() - i,
    {
        if approaches[i].ident == *ident {
            proof {
                lemma_ident_index_found(av, ident@, i as int);
            }
            return i;
        }
        i = i + 1;
    }
    proof {
        lemma_ident_index_absent(av, ident@);
    }
    i
}

/// Builds `RW` followed by `runway`.
fn runway_ident_string(runway: &String) -> (res: String)
    ensures
        res@ == seq!['R', 'W'] + runway@,
{
    let mut res = String::from_str("RW");
    proof {
        reveal_strlit("RW");
    }
    res.append(runway.as_str());
    res
}

/// A new, empty approach named `ident`.
fn new_approach<L>(ident: &String) -> (res: Approach<L>)
    ensures
        approach_view(res) == (ident@, new_approach_body::<L>(ident@)),
{
    let runway_ident = match split_approach_ident(ident.clone()) {
        Some((_, rw, _)) => Some(runway_ident_string(&rw)),
        None => None,
    };
    let res = Approach {
        ident: ident.clone(),
        transitions: Vec::new(),
        legs: Vec::new(),
        missed_legs: Vec::new(),
        runway_ident,
        approach_type: ApproachType::Fms,
    };
    proof {
        assert(transitions_view(Seq::<Transition<L>>::empty()) =~= Seq::<TransitionView<L>>::empty());
        assert(approach_view(res).1 =~= new_approach_body::<L>(ident@));
    }
    res
}

/// Assembles the approach rows of one airport into approaches.
///
/// Rows are grouped by procedure identifier. Transition legs (route type `A`)
/// go to their transition, and missed approach legs (route type `Z`, or any
/// leg after a waypoint description whose third character is `M`) to the
/// missed approach legs; the other legs make up the approach and set its type.
/// The missed approach flag is cleared when a row starts a new approach.
/// Approaches come in the order in which their first row appears.
pub fn map_approaches<L: Copy>(data: Vec<ProcedureRow<L>>) -> (res: Vec<Approach<L>>)
    requires
        forall|i: int| 0 <= i < data.len() ==> approach_row_ok(#[trigger] data@.take(i), data@[i]),
    ensures
        approaches_view(res@) == approaches_state(data@).0,
{
    let mut approaches: Vec<Approach<L>> = Vec::new();
    let mut missed_started = false;
    let mut i: usize = 0;
    proof {
        assert(data@.take(0) =~= Seq::<ProcedureRow<L>>::empty());
        assert(approaches_view(approaches@) =~= Seq::<(Seq<char>, ApproachBody<L>)>::empty());
    }
    while i < data.len()
        invariant
            i <= data.len(),
            forall|j: int| 0 <= j < data.len() ==> approach_row_ok(#[trigger] data@.take(j), data@[j]),
            (approaches_view(approaches@), missed_started) == approaches_state(data@.take(i as int)),
        decreases data.len() - i,
    {
        let row = &data[i];
        assert(approach_row_ok(data@.take(i as int), data@[i as int]));
        let ghost prev = approaches_view(approaches@);
        let k = approach_position(&approaches, &row.procedure_identifier);
        proof {
            lemma_ident_index(prev, row.procedure_identifier@);
        }
        if k == approaches.len() {
            missed_started = false;
            approaches.push(new_approach(&row.procedure_identifier));
        }
        let approach = &mut approaches[k];
        let ghost before = approach_view(*approach);
        match &row.waypoint_description_code {
            Some(d) => {
                if char_at_is(d.as_str(), 2, 'M') {
                    missed_started = true;
                }
            },
            None => {},
        }
        let rt = row.route_type.as_str();
        if is_single_char(rt, 'A') {
            match &row.transition_identifier {
                Some(t) => apply_enroute_transition_leg(row.leg, t.clone(), &mut approach.transitions),
                None => {},
            }
        } else if is_single_char(rt, 'Z') || missed_started {
            approach.missed_legs.push(row.leg);
        } else {
            match ApproachType::from_code(rt) {
                Some(t) => {
                    approach.approach_type = t;
                },
                None => {},
            }
            approach.legs.push(row.leg);
        }
        proof {
            assert(approach_view(*approach).1 =~= approach_step(before.1, data@[i as int], missed_started));
            let taken = data@.take(i + 1);
            assert(taken.drop_last() =~= data@.take(i as int));
            assert(taken.last() == data@[i as int]);
            if k < prev.len() {
                assert(approaches_view(approaches@) =~= prev.update(
                    k as int,
                    (prev[k as int].0, approach_step(prev[k as int].1, data@[i as int], missed_started)),
                ));
            } else {
                assert(approaches_view(approaches@) =~= prev.push(
                    (
                        data@[i as int].procedure_identifier@,
                        approach_step(
                            new_approach_body(data@[i as int].procedure_identifier@),
                            data@[i as int],
                            missed_started,
                        ),
                    ),
                ));
            }
        }
        i = i + 1;
    }
    proof {
        assert(data@.take(data.len() as int) =~= data@);
    }
    approaches
}


/// Assembling approaches yields one approach per procedure identifier of
/// the rows, and no other.
pub proof fn lemma_one_approach_per_identifier<L>(rows: Seq<ProcedureRow<L>>)
    ensures
        distinct_keys(approaches_state(rows).0),
        keys(approaches_state(rows).0) == row_idents(rows),
    decreases rows.len(),
{
    if rows.len() == 0 {
        assert(keys(approaches_state(rows).0) =~= Set::<Seq<char>>::empty());
        assert(row_idents(rows) =~= Set::<Seq<char>>::empty());
    } else {
        lemma_one_approach_per_identifier(rows.drop_last());
        let (prev, missed) = approaches_state(rows.drop_last());
        let row = rows.last();
        let k = ident_index(prev, row.procedure_identifier@);
        let missed_now = (k < prev.len() && missed) || starts_missed(opt_view(row.waypoint_description_code));
        lemma_keyed_step(
            prev,
            row.procedure_identifier@,
            approach_step(prev[k].1, row, missed_now),
            approach_step(new_approach_body(row.procedure_identifier@), row, missed_now),
        );
        lemma_row_idents_push(rows);
    }
}

} // verus!
