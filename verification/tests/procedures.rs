use navdata_interface::enums::ApproachType;
use navdata_interface::procedure::approach::{map_approaches, split_approach_ident};
use navdata_interface::procedure::arrival::{arrival_row_check, map_arrivals};
use navdata_interface::procedure::departure::{departure_row_check, map_departures};
use navdata_interface::procedure::{mut_find_or_insert, runway_prefixes_check, ProcedureRow, Transition};

fn row(proc_id: &str, rt: &str, tid: Option<&str>, desc: Option<&str>, leg: u32) -> ProcedureRow<u32> {
    ProcedureRow {
        procedure_identifier: proc_id.to_string(),
        route_type: rt.to_string(),
        transition_identifier: tid.map(|s| s.to_string()),
        waypoint_description_code: desc.map(|s| s.to_string()),
        leg,
    }
}

fn runways() -> Vec<String> {
    vec!["RW09L".to_string(), "RW09R".to_string(), "RW27L".to_string(), "RW27R".to_string()]
}

fn names(ts: &[Transition<u32>]) -> Vec<(String, Vec<u32>)> {
    ts.iter().map(|t| (t.ident.clone(), t.legs.clone())).collect()
}

#[test]
fn arrivals_group_rows_by_procedure() {
    let rows = vec![
        row("ALPHA1", "1", Some("ENR1"), None, 1),
        row("ALPHA1", "1", Some("ENR1"), None, 2),
        row("BRAVO2", "2", None, None, 3),
        row("ALPHA1", "2", None, None, 4),
        row("ALPHA1", "3", Some("RW27L"), None, 5),
        row("ALPHA1", "6", Some("RW09B"), None, 6),
    ];
    let arrivals = map_arrivals(rows, runways());
    assert_eq!(arrivals.len(), 2);
    assert_eq!(arrivals[0].ident, "ALPHA1");
    assert_eq!(arrivals[1].ident, "BRAVO2");
    assert_eq!(names(&arrivals[0].enroute_transitions), vec![("ENR1".to_string(), vec![1, 2])]);
    assert_eq!(arrivals[0].common_legs, vec![4]);
    assert_eq!(
        names(&arrivals[0].runway_transitions),
        vec![
            ("RW27L".to_string(), vec![5]),
            ("RW09L".to_string(), vec![6]),
            ("RW09R".to_string(), vec![6]),
        ]
    );
    assert_eq!(arrivals[1].common_legs, vec![3]);
}

#[test]
fn arrival_common_leg_for_all_runways() {
    let rows = vec![row("C1", "2", Some("ALL"), None, 7)];
    let arrivals = map_arrivals(rows, runways());
    assert_eq!(arrivals.len(), 1);
    assert_eq!(arrivals[0].runway_transitions.len(), 4);
    assert!(arrivals[0].runway_transitions.iter().all(|t| t.legs == vec![7]));
}

#[test]
fn departures_group_rows_by_procedure() {
    let rows = vec![
        row("D1", "1", Some("RW27L"), None, 1),
        row("D1", "2", None, None, 2),
        row("D1", "3", Some("ENR"), None, 3),
        row("D1", "0", None, None, 4),
        row("D2", "5", Some("RW09B"), None, 5),
    ];
    let deps = map_departures(rows, runways());
    assert_eq!(deps.len(), 2);
    assert_eq!(names(&deps[0].runway_transitions), vec![("RW27L".to_string(), vec![1])]);
    assert_eq!(deps[0].common_legs, vec![2]);
    assert_eq!(names(&deps[0].enroute_transitions), vec![("ENR".to_string(), vec![3])]);
    assert_eq!(deps[0].engine_out_legs, vec![4]);
    assert!(!deps[0].identical_runway_transitions);
    assert_eq!(deps[1].ident, "D2");
    assert!(deps[1].identical_runway_transitions);
    assert_eq!(
        names(&deps[1].runway_transitions),
        vec![("RW09L".to_string(), vec![5]), ("RW09R".to_string(), vec![5])]
    );
}

#[test]
fn departure_runway_number_compares_bytes() {
    let rows = vec![row("D3", "4", Some("ééxyB"), None, 7)];
    let rws = vec!["éé09".to_string(), "RW27".to_string(), "ééAB".to_string()];
    let deps = map_departures(rows, rws);
    assert_eq!(deps.len(), 1);
    assert_eq!(
        names(&deps[0].runway_transitions),
        vec![("éé09".to_string(), vec![7]), ("ééAB".to_string(), vec![7])]
    );
}

#[test]
fn approach_identifiers_split() {
    assert_eq!(
        split_approach_ident("I08L".to_string()),
        Some(("I".to_string(), "08L".to_string(), None))
    );
    assert_eq!(
        split_approach_ident("R12-M".to_string()),
        Some(("R".to_string(), "12".to_string(), Some("M".to_string())))
    );
    assert_eq!(split_approach_ident("RNVC".to_string()), None);
}

#[test]
fn approaches_split_transitions_legs_and_missed() {
    let rows = vec![
        row("I27L", "A", Some("ABC"), None, 1),
        row("I27L", "I", None, None, 2),
        row("I27L", "I", None, Some("  M"), 3),
        row("I27L", "I", None, None, 4),
        row("R09", "R", None, None, 5),
        row("R09", "Z", None, None, 6),
    ];
    let approaches = map_approaches(rows);
    assert_eq!(approaches.len(), 2);
    assert_eq!(approaches[0].ident, "I27L");
    assert_eq!(names(&approaches[0].transitions), vec![("ABC".to_string(), vec![1])]);
    assert_eq!(approaches[0].legs, vec![2]);
    assert_eq!(approaches[0].missed_legs, vec![3, 4]);
    assert_eq!(approaches[0].runway_ident, Some("RW27L".to_string()));
    assert_eq!(approaches[0].approach_type, ApproachType::Ils);
    assert_eq!(approaches[1].legs, vec![5]);
    assert_eq!(approaches[1].missed_legs, vec![6]);
    assert_eq!(approaches[1].approach_type, ApproachType::Rnav);
    assert_eq!(approaches[1].runway_ident, Some("RW09".to_string()));
}

#[test]
fn approach_without_runway_shape_has_fms_type_until_a_leg() {
    let approaches = map_approaches(vec![row("RNVC", "A", Some("T1"), None, 9)]);
    assert_eq!(approaches[0].runway_ident, None);
    assert_eq!(approaches[0].approach_type, ApproachType::Fms);
}

#[test]
fn one_procedure_per_identifier() {
    let rows = vec![
        row("X", "2", None, None, 1),
        row("Y", "2", None, None, 2),
        row("X", "2", None, None, 3),
        row("Z", "2", None, None, 4),
        row("Y", "2", None, None, 5),
    ];
    let arrivals = map_arrivals(rows, runways());
    let ids: Vec<&str> = arrivals.iter().map(|a| a.ident.as_str()).collect();
    assert_eq!(ids, vec!["X", "Y", "Z"]);
    assert_eq!(arrivals[0].common_legs, vec![1, 3]);
}

#[test]
fn find_or_insert_transition() {
    let mut ts: Vec<Transition<u32>> = vec![Transition { ident: "A".to_string(), legs: vec![1] }];
    mut_find_or_insert(&mut ts, |t: &Transition<u32>| t.ident == "A", Transition { ident: "A".to_string(), legs: vec![] })
        .legs
        .push(2);
    mut_find_or_insert(&mut ts, |t: &Transition<u32>| t.ident == "B", Transition { ident: "B".to_string(), legs: vec![9] })
        .legs
        .push(3);
    assert_eq!(ts.len(), 2);
    assert_eq!(ts[0].legs, vec![1, 2]);
    assert_eq!(ts[1].ident, "B");
    assert_eq!(ts[1].legs, vec![9, 3]);
}

#[test]
fn find_or_insert_takes_first_match_of_any_condition() {
    let mut v: Vec<u32> = vec![3, 8, 10, 12];
    *mut_find_or_insert(&mut v, |x: &u32| *x % 2 == 0, 99) += 1;
    assert_eq!(v, vec![3, 9, 10, 12]);
    *mut_find_or_insert(&mut v, |x: &u32| *x > 50, 99) += 1;
    assert_eq!(v, vec![3, 9, 10, 12, 100]);
}

#[test]
fn complete_departures_and_arrivals_have_runway_transitions() {
    let rows = vec![
        row("D1", "0", None, None, 1),
        row("D1", "5", Some("ALL"), None, 2),
        row("D2", "4", Some("RW27B"), None, 3),
        row("D3", "2", Some("RW09L"), None, 4),
    ];
    let deps = map_departures(rows, runways());
    assert_eq!(deps.len(), 3);
    assert!(deps.iter().all(|d| !d.runway_transitions.is_empty()));
    assert_eq!(deps[0].runway_transitions.len(), 4);

    let rows = vec![row("A1", "1", Some("ENR"), None, 1), row("A1", "8", Some("RW09B"), None, 2)];
    let arrs = map_arrivals(rows, runways());
    assert_eq!(arrs.len(), 1);
    assert_eq!(arrs[0].runway_transitions.len(), 2);
}

#[test]
fn departure_without_runway_row_has_no_runway_transition() {
    // Incomplete data: the only row is an engine-out leg.
    let deps = map_departures(vec![row("D1", "0", None, None, 1)], runways());
    assert_eq!(deps.len(), 1);
    assert!(deps[0].runway_transitions.is_empty());
    // A runway number that no runway has reaches no runway either.
    let deps = map_departures(vec![row("D2", "4", Some("RW36B"), None, 1)], runways());
    assert!(deps[0].runway_transitions.is_empty());
}

#[test]
fn procedure_rows_are_checked() {
    let rws = runways();
    assert!(departure_row_check(&row("D", "0", None, None, 1), &rws));
    assert!(!departure_row_check(&row("D", "1", None, None, 1), &rws));
    assert!(departure_row_check(&row("D", "2", None, None, 1), &rws));
    assert!(!departure_row_check(&row("D", "3", None, None, 1), &rws));
    assert!(!departure_row_check(&row("D", "7", Some("X"), None, 1), &rws));
    assert!(arrival_row_check(&row("A", "7", Some("X"), None, 1), &rws));
    assert!(!arrival_row_check(&row("A", "0", Some("X"), None, 1), &rws));
    assert!(!arrival_row_check(&row("A", "3", None, None, 1), &rws));
    assert!(arrival_row_check(&row("A", "8", Some("ALL"), None, 1), &rws));
    // Byte 4 of `é€xyB` lies inside `€`.
    assert!(!departure_row_check(&row("D", "4", Some("é€xyB"), None, 1), &rws));
    assert!(departure_row_check(&row("D", "4", Some("ééxyB"), None, 1), &rws));
    assert!(runway_prefixes_check("é€xyB", &vec![]));
    assert!(!runway_prefixes_check("RW09B", &vec!["RW9".to_string()]));
    assert!(runway_prefixes_check("RW09L", &vec!["RW9".to_string()]));
}
