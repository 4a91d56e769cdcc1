use navdata_interface::airspace::{map_controlled_airspaces, ControlledAirspaceRow};
use navdata_interface::database::split_validity;
use navdata_interface::dispatcher::{add_to_queue, collect_finished, start_pending_tasks, Task, TaskStatus};
use navdata_interface::dispatcher::RequestState;
use navdata_interface::enums::ControlledAirspaceType;
use navdata_interface::database_info::DatabaseInfo;
use navdata_interface::funcs::{poll_request, report_kept, RequestPoll};
use navdata_interface::json_structs::{CallFunction, FunctionType};
use navdata_interface::meta::{should_copy_bundled, str_greater};
use navdata_interface::navdata_updater::{DownloadStatus, NavdataDownloader};

#[test]
fn every_airspace_has_a_boundary() {
    let row = |name: Option<&str>, via: &str| ControlledAirspaceRow {
        area_code: "A".to_string(),
        icao_code: "B".to_string(),
        airspace_center: "C".to_string(),
        controlled_airspace_name: name.map(|s| s.to_string()),
        airspace_type: ControlledAirspaceType::ClassD,
        boundary_via: via.to_string(),
        latitude: None,
        longitude: None,
        arc_origin_latitude: None,
        arc_origin_longitude: None,
        arc_distance: None,
        arc_bearing: None,
    };
    let rows = vec![row(Some("X"), "GE"), row(None, "GE"), row(Some("Y"), "G"), row(None, "GE")];
    let n = rows.len();
    let a = map_controlled_airspaces(rows, 0.0);
    assert!(a.len() <= n);
    assert!(a.iter().all(|x| !x.boundary_paths.is_empty()));
}

#[test]
fn text_order_is_asymmetric() {
    for (a, b) in [("2401", "2402"), ("abc", "ab"), ("", "x"), ("same", "same")] {
        assert!(!(str_greater(a, b) && str_greater(b, a)));
    }
}

#[test]
fn same_bundled_cycle_is_not_copied_again() {
    let c = Some("2403".to_string());
    assert!(!should_copy_bundled(Some(true), &c, &c));
    assert!(should_copy_bundled(None, &c, &c));
}

#[test]
fn validity_split_undoes_join() {
    let (from, to) = ("2024-01-25", "2024-02-21");
    let joined = format!("{from}/{to}");
    assert_eq!(split_validity(&joined), (from.to_string(), to.to_string()));
}

#[test]
fn starting_then_collecting_loses_no_task() {
    let mut q: Vec<Task<u8>> = Vec::new();
    for (i, f) in [FunctionType::GetAirport, FunctionType::GetNavigationDataInstallStatus, FunctionType::GetGatesAtAirport]
        .into_iter()
        .enumerate()
    {
        add_to_queue(&mut q, CallFunction { function: f, id: i.to_string(), data: None });
    }
    start_pending_tasks(&mut q);
    assert!(q.iter().all(|t| !matches!(t.status, TaskStatus::NotStarted)));
    q[0].status = TaskStatus::Success(None);
    q[2].status = TaskStatus::Failure("x".to_string());
    let before = q.len();
    let results = collect_finished(&mut q);
    assert_eq!(q.len() + results.len(), before);
}

#[test]
fn status_update_is_idempotent() {
    let mut u = NavdataDownloader::new();
    u.request_finished(Ok(2));
    let first = u.update_and_get_status();
    let second = u.update_and_get_status();
    assert!(matches!((first, second), (DownloadStatus::Extracting, DownloadStatus::Extracting)));
}

#[test]
fn request_polls() {
    assert_eq!(poll_request(RequestState::New), RequestPoll::Pending);
    assert_eq!(poll_request(RequestState::WaitingForData), RequestPoll::Pending);
    assert_eq!(poll_request(RequestState::DataReady), RequestPoll::Ready);
    assert_eq!(poll_request(RequestState::Invalid), RequestPoll::Invalid);
    assert_eq!(poll_request(RequestState::Failed), RequestPoll::Failed);
}

#[test]
fn pending_reports_stay_until_answered() {
    assert!(report_kept(None, true));
    assert!(!report_kept(None, false));
    assert!(report_kept(Some(RequestState::WaitingForData), false));
    assert!(!report_kept(Some(RequestState::DataReady), true));
}

#[test]
fn first_format_header_carries_both_ranges() {
    let info = DatabaseInfo::from_header_ranges("2402".to_string(), "2202210324".to_string(), "2501220224".to_string());
    assert_eq!(info.airac_cycle, "2402");
    assert_eq!(info.effective_from_to, ("22-02-2024".to_string(), "21-03-2024".to_string()));
    assert_eq!(info.previous_from_to, ("25-01-2024".to_string(), "22-02-2024".to_string()));
}
