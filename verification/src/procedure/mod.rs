use vstd::prelude::*;

use crate::text::{byte_prefix4_ok, same_byte_prefix4, is_char_string, char_at_is, has_char_at, is_all_keyword, prefix4_eq};

pub mod approach;
pub mod arrival;
pub mod departure;

verus! {

/// A named sequence of legs (an enroute or a runway transition of a procedure).
///
/// `L` is the leg type; assembling procedures only moves legs around, so any
/// copyable leg (a leg value or a reference to one) will do.
pub struct Transition<L> {
    pub ident: String,
    pub legs: Vec<L>,
}

/// One procedure row of the database, reduced to what assembling procedures
/// reads: the procedure and transition it belongs to, its route type code,
/// its waypoint description code and the leg it describes.
pub struct ProcedureRow<L> {
    pub procedure_identifier: String,
    pub route_type: String,
    pub transition_identifier: Option<String>,
    pub waypoint_description_code: Option<String>,
    pub leg: L,
}

/// The abstract value of an optional string.
pub open spec fn opt_view(o: Option<String>) -> Option<Seq<char>> {
    match o {
        Some(s) => Some(s@),
        None => None,
    }
}

/// The route type is the one-character code `c`.
pub open spec fn route_is(rt: Seq<char>, c: char) -> bool {
    is_char_string(rt, c)
}

/// The abstract value of a transition: its identifier and its legs.
pub type TransitionView<L> = (Seq<char>, Seq<L>);

/// The abstract value of a list of transitions.
pub open spec fn transitions_view<L>(ts: Seq<Transition<L>>) -> Seq<TransitionView<L>> {
    ts.map_values(|t: Transition<L>| (t.ident@, t.legs@))
}

/// Position of the first entry named `id`, or the length of `ts` when
/// there is none.
pub open spec fn ident_index<X>(ts: Seq<(Seq<char>, X)>, id: Seq<char>) -> int
    decreases ts.len(),
{
    if ts.len() == 0 {
        0
    } else {
        let k = ident_index(ts.drop_last(), id);
        if k < ts.len() - 1 {
            k
        } else if ts.last().0 == id {
            ts.len() - 1
        } else {
            ts.len() as int
        }
    }
}

/// `ident_index` is the first position that holds `id`, or the length.
pub proof fn lemma_ident_index<X>(ts: Seq<(Seq<char>, X)>, id: Seq<char>)
    ensures
        0 <= ident_index(ts, id) <= ts.len(),
        forall|j: int| 0 <= j < ident_index(ts, id) ==> ts[j].0 != id,
        ident_index(ts, id) < ts.len() ==> ts[ident_index(ts, id)].0 == id,
    decreases ts.len(),
{
    if ts.len() > 0 {
        lemma_ident_index(ts.drop_last(), id);
        assert forall|j: int| 0 <= j < ts.len() - 1 implies ts.drop_last()[j] == ts[j] by {}
    }
}

/// `ts` with `leg` appended to the transition named `id`; a transition of that
/// name is added at the end when there is none yet.
pub open spec fn add_leg<L>(ts: Seq<TransitionView<L>>, id: Seq<char>, leg: L) -> Seq<TransitionView<L>> {
    let k = ident_index(ts, id);
    if k < ts.len() {
        ts.update(k, (ts[k].0, ts[k].1.push(leg)))
    } else {
        ts.push((id, seq![leg]))
    }
}

/// `leg` added, in order, to the transition of every runway in `runways`.
pub open spec fn add_leg_each<L>(ts: Seq<TransitionView<L>>, runways: Seq<Seq<char>>, leg: L) -> Seq<TransitionView<L>>
    decreases runways.len(),
{
    if runways.len() == 0 {
        ts
    } else {
        add_leg(add_leg_each(ts, runways.drop_last(), leg), runways.last(), leg)
    }
}

/// Runway `rw` has the runway number of transition identifier `tid` (the
/// first four bytes agree, as `RW27` in `RW27L` and `RW27B`).
pub open spec fn same_runway_number(rw: Seq<char>, tid: Seq<char>) -> bool {
    same_byte_prefix4(rw, tid)
}

/// `leg` added, in order, to the transition of every runway in `runways` that
/// has the runway number of `tid`.
pub open spec fn add_leg_matching<L>(
    ts: Seq<TransitionView<L>>,
    runways: Seq<Seq<char>>,
    tid: Seq<char>,
    leg: L,
) -> Seq<TransitionView<L>>
    decreases runways.len(),
{
    if runways.len() == 0 {
        ts
    } else {
        let prev = add_leg_matching(ts, runways.drop_last(), tid, leg);
        if same_runway_number(runways.last(), tid) {
            add_leg(prev, runways.last(), leg)
        } else {
            prev
        }
    }
}

/// The identifier ends in `B` at its fifth character: the transition serves
/// every runway with that number.
pub open spec fn serves_all_with_number(tid: Seq<char>) -> bool {
    has_char_at(tid, 4, 'B')
}

/// The identifier is `ALL`: the procedure serves every runway.
pub open spec fn is_all(tid: Seq<char>) -> bool {
    tid == seq!['A', 'L', 'L']
}

/// The runway identifiers of an airport.
pub open spec fn runway_idents(runways: Seq<String>) -> Seq<Seq<char>> {
    runways.map_values(|r: String| r@)
}

/// What the runway-number comparison of `tid` needs: when it is made, the
/// first four bytes of every runway can be sliced off, and so can those of
/// the identifier once there is a runway to compare it with.
pub open spec fn runway_prefixes_ok(tid: Seq<char>, runways: Seq<Seq<char>>) -> bool {
    serves_all_with_number(tid) ==> {
        &&& forall|i: int| 0 <= i < runways.len() ==> #[trigger] byte_prefix4_ok(runways[i])
        &&& runways.len() > 0 ==> byte_prefix4_ok(tid)
    }
}

/// Tells whether the runway-number comparison of `tid` can be made with
/// these runways.
pub fn runway_prefixes_check(tid: &str, runways: &Vec<String>) -> (res: bool)
    ensures
        res == runway_prefixes_ok(tid@, runway_idents(runways@)),
{
    let ghost rws = runway_idents(runways@);
    if !char_at_is(tid, 4, 'B') {
        return true;
    }
    if runways.len() > 0 && !tid.is_char_boundary(4) {
        return false;
    }
    let mut i: usize = 0;
    while i < runways.len()
        invariant
            i <= runways.len(),
            rws == runway_idents(runways@),
            serves_all_with_number(tid@),
            runways.len() > 0 ==> byte_prefix4_ok(tid@),
            forall|j: int| 0 <= j < i ==> #[trigger] byte_prefix4_ok(rws[j]),
        decreases runways.len() - i,
    {
        assert(rws[i as int] == runways@[i as int]@);
        if !runways[i].as_str().is_char_boundary(4) {
            assert(!byte_prefix4_ok(rws[i as int]));
            return false;
        }
        assert(byte_prefix4_ok(rws[i as int]));
        i = i + 1;
    }
    true
}

/// Runway transitions after a runway transition leg.
pub open spec fn runway_transition_step<L>(
    ts: Seq<TransitionView<L>>,
    tid: Seq<char>,
    runways: Seq<Seq<char>>,
    leg: L,
) -> Seq<TransitionView<L>> {
    if serves_all_with_number(tid) {
        add_leg_matching(ts, runways, tid, leg)
    } else {
        add_leg(ts, tid, leg)
    }
}

/// Runway transitions and common legs after a common leg.
pub open spec fn common_leg_step<L>(
    ts: Seq<TransitionView<L>>,
    common: Seq<L>,
    tid: Option<Seq<char>>,
    runways: Seq<Seq<char>>,
    leg: L,
) -> (Seq<TransitionView<L>>, Seq<L>) {
    match tid {
        None => (ts, common.push(leg)),
        Some(t) => if is_all(t) {
            (add_leg_each(ts, runways, leg), common)
        } else if serves_all_with_number(t) {
            (add_leg_matching(ts, runways, t, leg), common)
        } else {
            (add_leg(ts, t, leg), common)
        },
    }
}

/// Some runway of `runways` has the runway number of `tid`.
pub open spec fn some_runway_matches(runways: Seq<Seq<char>>, tid: Seq<char>) -> bool {
    exists|j: int| 0 <= j < runways.len() && #[trigger] same_runway_number(runways[j], tid)
}

/// A runway transition leg filed under `tid` lands in a runway transition:
/// always, except that a runway number ending in `B` needs a runway with that
/// number.
pub open spec fn runway_leg_reaches(tid: Seq<char>, runways: Seq<Seq<char>>) -> bool {
    serves_all_with_number(tid) ==> some_runway_matches(runways, tid)
}

/// A common leg filed under `tid` lands in a runway transition: it needs a
/// transition identifier; `ALL` needs a runway, and a runway number ending in
/// `B` a runway with that number.
pub open spec fn common_leg_reaches(tid: Option<Seq<char>>, runways: Seq<Seq<char>>) -> bool {
    match tid {
        Some(t) => if is_all(t) {
            runways.len() > 0
        } else {
            runway_leg_reaches(t, runways)
        },
        None => false,
    }
}

/// Adding a leg keeps every transition and leaves at least one.
pub proof fn lemma_add_leg_len<L>(ts: Seq<TransitionView<L>>, id: Seq<char>, leg: L)
    ensures
        add_leg(ts, id, leg).len() >= ts.len(),
        add_leg(ts, id, leg).len() >= 1,
{
    lemma_ident_index(ts, id);
}

pub proof fn lemma_add_leg_each_len<L>(ts: Seq<TransitionView<L>>, runways: Seq<Seq<char>>, leg: L)
    ensures
        add_leg_each(ts, runways, leg).len() >= ts.len(),
        runways.len() > 0 ==> add_leg_each(ts, runways, leg).len() >= 1,
    decreases runways.len(),
{
    if runways.len() > 0 {
        lemma_add_leg_each_len(ts, runways.drop_last(), leg);
        lemma_add_leg_len(add_leg_each(ts, runways.drop_last(), leg), runways.last(), leg);
    }
}

pub proof fn lemma_add_leg_matching_len<L>(
    ts: Seq<TransitionView<L>>,
    runways: Seq<Seq<char>>,
    tid: Seq<char>,
    leg: L,
)
    ensures
        add_leg_matching(ts, runways, tid, leg).len() >= ts.len(),
        some_runway_matches(runways, tid) ==> add_leg_matching(ts, runways, tid, leg).len() >= 1,
    decreases runways.len(),
{
    if runways.len() > 0 {
        let rest = runways.drop_last();
        lemma_add_leg_matching_len(ts, rest, tid, leg);
        let prev = add_leg_matching(ts, rest, tid, leg);
        lemma_add_leg_len(prev, runways.last(), leg);
        if some_runway_matches(runways, tid) && !same_runway_number(runways.last(), tid) {
            let j = choose|j: int| 0 <= j < runways.len() && #[trigger] same_runway_number(runways[j], tid);
            assert(j < rest.len());
            assert(rest[j] == runways[j]);
            assert(some_runway_matches(rest, tid));
        }
    }
}

/// A runway transition leg keeps every runway transition, and leaves one
/// when it reaches a runway.
pub proof fn lemma_runway_step_len<L>(ts: Seq<TransitionView<L>>, tid: Seq<char>, runways: Seq<Seq<char>>, leg: L)
    ensures
        runway_transition_step(ts, tid, runways, leg).len() >= ts.len(),
        runway_leg_reaches(tid, runways) ==> runway_transition_step(ts, tid, runways, leg).len() >= 1,
{
    lemma_add_leg_len(ts, tid, leg);
    lemma_add_leg_matching_len(ts, runways, tid, leg);
}

/// A common leg keeps every runway transition, and leaves one when it
/// reaches a runway.
pub proof fn lemma_common_step_len<L>(
    ts: Seq<TransitionView<L>>,
    common: Seq<L>,
    tid: Option<Seq<char>>,
    runways: Seq<Seq<char>>,
    leg: L,
)
    ensures
        common_leg_step(ts, common, tid, runways, leg).0.len() >= ts.len(),
        common_leg_reaches(tid, runways) ==> common_leg_step(ts, common, tid, runways, leg).0.len() >= 1,
{
    if let Some(t) = tid {
        lemma_add_leg_len(ts, t, leg);
        lemma_add_leg_each_len(ts, runways, leg);
        lemma_add_leg_matching_len(ts, runways, t, leg);
    }
}

/// An entry whose identifier is among the keys is found.
pub proof fn lemma_ident_index_of_key<X>(ts: Seq<(Seq<char>, X)>, id: Seq<char>)
    requires
        keys(ts).contains(id),
    ensures
        ident_index(ts, id) < ts.len(),
{
    lemma_ident_index(ts, id);
    let f = |p: (Seq<char>, X)| p.0;
    let j = choose|j: int| 0 <= j < ts.map_values(f).len() && ts.map_values(f)[j] == id;
    assert(ts[j].0 == id);
}

/// A row of `rows` names `id`, so `id` is among the row identifiers.
pub proof fn lemma_row_ident_of<L>(rows: Seq<ProcedureRow<L>>, i: int)
    requires
        0 <= i < rows.len(),
    ensures
        row_idents(rows).contains(rows[i].procedure_identifier@),
{
    let f = |r: ProcedureRow<L>| r.procedure_identifier@;
    assert(rows.map_values(f)[i] == rows[i].procedure_identifier@);
}

/// An identifier among the row identifiers is that of some row.
pub proof fn lemma_row_of_ident<L>(rows: Seq<ProcedureRow<L>>, id: Seq<char>) -> (i: int)
    requires
        row_idents(rows).contains(id),
    ensures
        0 <= i < rows.len(),
        rows[i].procedure_identifier@ == id,
{
    let f = |r: ProcedureRow<L>| r.procedure_identifier@;
    let i = choose|i: int| 0 <= i < rows.map_values(f).len() && rows.map_values(f)[i] == id;
    i
}

pub proof fn lemma_ident_index_found<X>(ts: Seq<(Seq<char>, X)>, id: Seq<char>, i: int)
    requires
        0 <= i < ts.len(),
        ts[i].0 == id,
        forall|j: int| 0 <= j < i ==> ts[j].0 != id,
    ensures
        ident_index(ts, id) == i,
{
    lemma_ident_index(ts, id);
    let k = ident_index(ts, id);
    if k < i {
        assert(ts[k].0 != id);
    }
    if i < k {
        assert(ts[i].0 != id);
    }
}

pub proof fn lemma_ident_index_absent<X>(ts: Seq<(Seq<char>, X)>, id: Seq<char>)
    requires
        forall|j: int| 0 <= j < ts.len() ==> ts[j].0 != id,
    ensures
        ident_index(ts, id) == ts.len(),
{
    lemma_ident_index(ts, id);
}

/// No two entries of `s` have the same identifier.
pub open spec fn distinct_keys<X>(s: Seq<(Seq<char>, X)>) -> bool {
    forall|i: int, j: int| 0 <= i < j < s.len() ==> #[trigger] s[i].0 != #[trigger] s[j].0
}

/// The identifiers of the entries of `s`.
pub open spec fn keys<X>(s: Seq<(Seq<char>, X)>) -> Set<Seq<char>> {
    s.map_values(|p: (Seq<char>, X)| p.0).to_set()
}

/// The entry named `id` becomes `upd` when there is one; otherwise `(id, new)`
/// is added at the end.
pub open spec fn keyed_step<X>(prev: Seq<(Seq<char>, X)>, id: Seq<char>, upd: X, new: X) -> Seq<(Seq<char>, X)> {
    let k = ident_index(prev, id);
    if k < prev.len() {
        prev.update(k, (prev[k].0, upd))
    } else {
        prev.push((id, new))
    }
}

/// A keyed step keeps identifiers distinct and adds `id` to them.
pub proof fn lemma_keyed_step<X>(prev: Seq<(Seq<char>, X)>, id: Seq<char>, upd: X, new: X)
    requires
        distinct_keys(prev),
    ensures
        distinct_keys(keyed_step(prev, id, upd, new)),
        keys(keyed_step(prev, id, upd, new)) == keys(prev).insert(id),
{
    lemma_ident_index(prev, id);
    let k = ident_index(prev, id);
    let next = keyed_step(prev, id, upd, new);
    let f = |p: (Seq<char>, X)| p.0;
    if k < prev.len() {
        assert(next.map_values(f) =~= prev.map_values(f));
        assert(prev.map_values(f)[k] == id);
        assert(keys(prev).contains(id));
        assert(keys(prev).insert(id) =~= keys(prev));
    } else {
        assert(next.map_values(f) =~= prev.map_values(f).push(id));
        assert(prev.map_values(f).push(id).to_set() =~= prev.map_values(f).to_set().insert(id)) by {
            let a = prev.map_values(f);
            assert forall|x: Seq<char>| a.push(id).to_set().contains(x) <==> a.to_set().insert(id).contains(x) by {
                if a.push(id).to_set().contains(x) {
                    let i = choose|i: int| 0 <= i < a.push(id).len() && a.push(id)[i] == x;
                    if i < a.len() {
                        assert(a[i] == x);
                    }
                }
                if a.to_set().contains(x) {
                    let i = choose|i: int| 0 <= i < a.len() && a[i] == x;
                    assert(a.push(id)[i] == x);
                }
                if x == id {
                    assert(a.push(id)[a.len() as int] == x);
                }
            }
        }
    }
}

/// The identifiers of the rows' procedures.
pub open spec fn row_idents<L>(rows: Seq<ProcedureRow<L>>) -> Set<Seq<char>> {
    rows.map_values(|r: ProcedureRow<L>| r.procedure_identifier@).to_set()
}

pub proof fn lemma_row_idents_push<L>(rows: Seq<ProcedureRow<L>>)
    requires
        rows.len() > 0,
    ensures
        row_idents(rows) == row_idents(rows.drop_last()).insert(rows.last().procedure_identifier@),
{
    let f = |r: ProcedureRow<L>| r.procedure_identifier@;
    let a = rows.drop_last().map_values(f);
    let id = rows.last().procedure_identifier@;
    assert(rows.map_values(f) =~= a.push(id));
    assert forall|x: Seq<char>| a.push(id).to_set().contains(x) <==> a.to_set().insert(id).contains(x) by {
        if a.push(id).to_set().contains(x) {
            let i = choose|i: int| 0 <= i < a.push(id).len() && a.push(id)[i] == x;
            if i < a.len() {
                assert(a[i] == x);
            }
        }
        if a.to_set().contains(x) {
            let i = choose|i: int| 0 <= i < a.len() && a[i] == x;
            assert(a.push(id)[i] == x);
        }
        if x == id {
            assert(a.push(id)[a.len() as int] == x);
        }
    }
    assert(a.push(id).to_set() =~= a.to_set().insert(id));
}

/// Returns the first element of `vec` that meets `condition`; when none does,
/// `val` is pushed and the new last element is returned.
pub fn mut_find_or_insert<T, P: Fn(&T) -> bool>(vec: &mut Vec<T>, condition: P, val: T) -> (res: &mut T)
    requires
        forall|i: int| 0 <= i < old(vec).len() ==> #[trigger] condition.requires((&old(vec)@[i],)),
    ensures
        ({
            ||| exists|k: int|
                #![trigger old(vec)@[k]]
                {
                    &&& 0 <= k < old(vec).len()
                    &&& condition.ensures((&old(vec)@[k],), true)
                    &&& forall|j: int| 0 <= j < k ==> #[trigger] condition.ensures((&old(vec)@[j],), false)
                    &&& *res == old(vec)@[k]
                    &&& final(vec)@ == old(vec)@.update(k, *final(res))
                }
            ||| {
                &&& forall|j: int|
                    0 <= j < old(vec).len() ==> #[trigger] condition.ensures((&old(vec)@[j],), false)
                &&& *res == val
                &&& final(vec)@ == old(vec)@.push(*final(res))
            }
        }),
{
    let mut i: usize = 0;
    while i < vec.len()
        invariant
            i <= vec.len(),
            vec@ == old(vec)@,
            forall|j: int| 0 <= j < old(vec).len() ==> #[trigger] condition.requires((&old(vec)@[j],)),
            forall|j: int| 0 <= j < i ==> #[trigger] condition.ensures((&old(vec)@[j],), false),
        decreases vec.len() - i,
    {
        if condition(&vec[i]) {
            return &mut vec[i];
        }
        i = i + 1;
    }
    vec.push(val);
    let last = vec.len() - 1;
    &mut vec[last]
}

/// Appends `leg` to the transition named `ident`, creating it if needed.
fn add_leg_to<L>(transitions: &mut Vec<Transition<L>>, ident: &String, leg: L)
    ensures
        transitions_view(final(transitions)@) == add_leg(transitions_view(old(transitions)@), ident@, leg),
{
    let ghost old_v = transitions@;
    let ghost tv = transitions_view(old_v);
    let named = |t: &Transition<L>| -> (r: bool)
        ensures
            r == (t.ident@ == ident@),
        { t.ident == *ident };
    let transition = mut_find_or_insert(
        transitions,
        named,
        Transition { ident: ident.clone(), legs: Vec::new() },
    );
    transition.legs.push(leg);
    proof {
        let k = ident_index(tv, ident@);
        lemma_ident_index(tv, ident@);
        assert forall|j: int, r: bool| 0 <= j < old_v.len() && #[trigger] named.ensures((&old_v[j],), r)
            implies r == (tv[j].0 == ident@) by {}
        if k < old_v.len() {
            assert(!named.ensures((&old_v[k],), false));
            assert forall|k2: int|
                0 <= k2 < old_v.len() && #[trigger] named.ensures((&old_v[k2],), true) && (forall|j: int|
                    0 <= j < k2 ==> #[trigger] named.ensures((&old_v[j],), false)) implies k2 == k by {
                if k2 > k {
                    assert(named.ensures((&old_v[k],), false));
                }
            }
            assert(transitions_view(transitions@) =~= tv.update(k, (tv[k].0, tv[k].1.push(leg))));
        } else {
            assert(transitions_view(transitions@) =~= tv.push((ident@, seq![leg])));
        }
    }
}

} // verus!

verus! {

/// Adds `leg` to the transition of every runway, in order.
fn add_leg_to_each<L: Copy>(transitions: &mut Vec<Transition<L>>, runways: &Vec<String>, leg: L)
    ensures
        transitions_view(final(transitions)@) == add_leg_each(
            transitions_view(old(transitions)@),
            runway_idents(runways@),
            leg,
        ),
{
    let ghost start = transitions_view(transitions@);
    let ghost rws = runway_idents(runways@);
    let mut i: usize = 0;
    proof {
        assert(rws.take(0) =~= Seq::<Seq<char>>::empty());
    }
    while i < runways.len()
        invariant
            i <= runways.len(),
            rws == runway_idents(runways@),
            transitions_view(transitions@) == add_leg_each(start, rws.take(i as int), leg),
        decreases runways.len() - i,
    {
        add_leg_to(transitions, &runways[i], leg);
        proof {
            assert(rws.take(i + 1).drop_last() =~= rws.take(i as int));
            assert(rws.take(i + 1).last() == runways@[i as int]@);
        }
        i = i + 1;
    }
    proof {
        assert(rws.take(runways.len() as int) =~= rws);
    }
}

/// Adds `leg` to the transition of every runway with the runway number of `tid`.
fn add_leg_to_matching<L: Copy>(
    transitions: &mut Vec<Transition<L>>,
    runways: &Vec<String>,
    tid: &String,
    leg: L,
)
    requires
        runways.len() > 0 ==> byte_prefix4_ok(tid@),
        forall|i: int| 0 <= i < runways.len() ==> #[trigger] byte_prefix4_ok(runways@[i]@),
    ensures
        transitions_view(final(transitions)@) == add_leg_matching(
            transitions_view(old(transitions)@),
            runway_idents(runways@),
            tid@,
            leg,
        ),
{
    let ghost start = transitions_view(transitions@);
    let ghost rws = runway_idents(runways@);
    let mut i: usize = 0;
    proof {
        assert(rws.take(0) =~= Seq::<Seq<char>>::empty());
    }
    while i < runways.len()
        invariant
            i <= runways.len(),
            rws == runway_idents(runways@),
            runways.len() > 0 ==> byte_prefix4_ok(tid@),
            forall|j: int| 0 <= j < runways.len() ==> #[trigger] byte_prefix4_ok(runways@[j]@),
            transitions_view(transitions@) == add_leg_matching(start, rws.take(i as int), tid@, leg),
        decreases runways.len() - i,
    {
        assert(byte_prefix4_ok(runways@[i as int]@));
        if prefix4_eq(runways[i].as_str(), tid.as_str()) {
            add_leg_to(transitions, &runways[i], leg);
        }
        proof {
            assert(rws.take(i + 1).drop_last() =~= rws.take(i as int));
            assert(rws.take(i + 1).last() == runways@[i as int]@);
        }
        i = i + 1;
    }
    proof {
        assert(rws.take(runways.len() as int) =~= rws);
    }
}

/// Adds a leg of an enroute transition to the transition it names.
pub fn apply_enroute_transition_leg<L: Copy>(
    leg: L,
    transition_identifier: String,
    enroute_transitions: &mut Vec<Transition<L>>,
)
    ensures
        transitions_view(final(enroute_transitions)@) == add_leg(
            transitions_view(old(enroute_transitions)@),
            transition_identifier@,
            leg,
        ),
{
    add_leg_to(enroute_transitions, &transition_identifier, leg);
}

/// Adds a common leg: to the common legs when it names no transition, to every
/// runway for `ALL`, to every runway of one number for an identifier ending in
/// `B`, and otherwise to the runway transition it names.
pub fn apply_common_leg<L: Copy>(
    leg: L,
    transition_identifier: Option<String>,
    runway_transitions: &mut Vec<Transition<L>>,
    common_legs: &mut Vec<L>,
    runways: &Vec<String>,
)
    requires
        match transition_identifier {
            Some(t) => !is_all(t@) ==> runway_prefixes_ok(t@, runway_idents(runways@)),
            None => true,
        },
    ensures
        (transitions_view(final(runway_transitions)@), final(common_legs)@) == common_leg_step(
            transitions_view(old(runway_transitions)@),
            old(common_legs)@,
            opt_view(transition_identifier),
            runway_idents(runways@),
            leg,
        ),
{
    match transition_identifier {
        Some(tid) => {
            if is_all_keyword(tid.as_str()) {
                add_leg_to_each(runway_transitions, runways, leg);
            } else if char_at_is(tid.as_str(), 4, 'B') {
                proof {
                    let rws = runway_idents(runways@);
                    assert forall|i: int| 0 <= i < runways.len() implies #[trigger] byte_prefix4_ok(
                        runways@[i]@,
                    ) by {
                        assert(rws[i] == runways@[i]@);
                    }
                }
                add_leg_to_matching(runway_transitions, runways, &tid, leg);
            } else {
                add_leg_to(runway_transitions, &tid, leg);
            }
        },
        None => {
            common_legs.push(leg);
        },
    }
}

/// Adds a leg of a runway transition: to every runway of one number for an
/// identifier ending in `B`, otherwise to the runway transition it names.
pub fn apply_runway_transition_leg<L: Copy>(
    leg: L,
    transition_identifier: String,
    runway_transitions: &mut Vec<Transition<L>>,
    runways: &Vec<String>,
)
    requires
        runway_prefixes_ok(transition_identifier@, runway_idents(runways@)),
    ensures
        transitions_view(final(runway_transitions)@) == runway_transition_step(
            transitions_view(old(runway_transitions)@),
            transition_identifier@,
            runway_idents(runways@),
            leg,
        ),
{
    if char_at_is(transition_identifier.as_str(), 4, 'B') {
        proof {
            let rws = runway_idents(runways@);
            assert forall|i: int| 0 <= i < runways.len() implies #[trigger] byte_prefix4_ok(
                runways@[i]@,
            ) by {
                assert(rws[i] == runways@[i]@);
            }
        }
        add_leg_to_matching(runway_transitions, runways, &transition_identifier, leg);
    } else {
        add_leg_to(runway_transitions, &transition_identifier, leg);
    }
}

} // verus!
