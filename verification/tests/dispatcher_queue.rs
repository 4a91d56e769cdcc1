use navdata_interface::dispatcher::{
    add_to_queue, collect_finished, settle_network_tasks, start_pending_tasks, task_action, RequestState,
    Task, TaskAction, TaskStatus,
};
use navdata_interface::json_structs::{CallFunction, FunctionStatus, FunctionType};

fn call(f: FunctionType, id: &str) -> CallFunction {
    CallFunction { function: f, id: id.to_string(), data: None }
}

#[test]
fn actions_by_function_type() {
    assert_eq!(task_action(FunctionType::DownloadNavigationData), TaskAction::StartDownload);
    assert_eq!(task_action(FunctionType::DownloadNavdata), TaskAction::StartDownload);
    assert_eq!(
        task_action(FunctionType::GetNavigationDataInstallStatus),
        TaskAction::StartInstallStatusRequest
    );
    assert_eq!(task_action(FunctionType::GetAirport), TaskAction::Execute);
    assert_eq!(task_action(FunctionType::ExecuteSQLQuery), TaskAction::Execute);
}

#[test]
fn starting_marks_pending_tasks_in_order() {
    let mut q: Vec<Task<u8>> = Vec::new();
    add_to_queue(&mut q, call(FunctionType::GetAirport, "a"));
    add_to_queue(&mut q, call(FunctionType::DownloadNavigationData, "b"));
    q[0].status = TaskStatus::Failure("earlier".to_string());
    add_to_queue(&mut q, call(FunctionType::GetNavigationDataInstallStatus, "c"));
    let started = start_pending_tasks(&mut q);
    assert_eq!(started, vec![(1, TaskAction::StartDownload), (2, TaskAction::StartInstallStatusRequest)]);
    assert!(matches!(q[0].status, TaskStatus::Failure(_)));
    assert!(matches!(q[1].status, TaskStatus::InProgress));
    assert!(matches!(q[2].status, TaskStatus::InProgress));
    assert!(start_pending_tasks(&mut q).is_empty());
}

#[test]
fn network_tasks_settle_by_request_state() {
    let mut q: Vec<Task<u8>> = Vec::new();
    add_to_queue(&mut q, call(FunctionType::GetNavigationDataInstallStatus, "ready"));
    add_to_queue(&mut q, call(FunctionType::GetNavigationDataInstallStatus, "failed"));
    add_to_queue(&mut q, call(FunctionType::GetAirport, "no-request"));
    add_to_queue(&mut q, call(FunctionType::GetNavigationDataInstallStatus, "waiting"));
    start_pending_tasks(&mut q);
    q[0].associated_network_request = Some(1);
    q[1].associated_network_request = Some(2);
    q[3].associated_network_request = Some(4);
    let states = vec![
        Some(RequestState::DataReady),
        Some(RequestState::Failed),
        None,
        Some(RequestState::WaitingForData),
    ];
    let report = settle_network_tasks(&mut q, &states);
    assert_eq!(report, vec![0]);
    match &q[1].status {
        TaskStatus::Failure(m) => assert_eq!(m, "Network request failed"),
        _ => panic!("the failed request must fail its task"),
    }
    assert!(matches!(q[0].status, TaskStatus::InProgress));
    assert!(matches!(q[2].status, TaskStatus::InProgress));
    assert!(matches!(q[3].status, TaskStatus::InProgress));
}

#[test]
fn finished_tasks_are_answered_and_removed() {
    let mut q: Vec<Task<u8>> = Vec::new();
    for id in ["1", "2", "3", "4"] {
        add_to_queue(&mut q, call(FunctionType::GetWaypoints, id));
    }
    start_pending_tasks(&mut q);
    q[0].status = TaskStatus::Success(Some(serde_json::Value::from(5)));
    q[2].status = TaskStatus::Failure("bad ident".to_string());
    q[3].status = TaskStatus::Success(None);
    let results = collect_finished(&mut q);
    assert_eq!(q.len(), 1);
    assert_eq!(q[0].id, "2");
    assert_eq!(results.len(), 3);
    assert_eq!(results[0].id, "1");
    assert_eq!(results[0].status, FunctionStatus::Success);
    assert_eq!(results[0].data, Some(serde_json::Value::from(5)));
    assert_eq!(results[1].id, "3");
    assert_eq!(results[1].status, FunctionStatus::Error);
    assert_eq!(results[1].data, Some(serde_json::Value::String("bad ident".to_string())));
    assert_eq!(results[2].id, "4");
    assert_eq!(results[2].data, None);
}

#[test]
fn new_task_is_not_started() {
    let t: Task<u8> = Task::new(call(FunctionType::GetAirways, "x"));
    assert!(matches!(t.status, TaskStatus::NotStarted));
    assert!(t.associated_network_request.is_none());
    assert_eq!(t.id, "x");
}

#[test]
fn collection_keeps_exactly_the_tasks_in_progress_in_order() {
    let mut q: Vec<Task<u8>> = Vec::new();
    for id in ["a", "b", "c", "d", "e"] {
        add_to_queue(&mut q, call(FunctionType::GetWaypoints, id));
    }
    start_pending_tasks(&mut q);
    q[1].status = TaskStatus::Success(None);
    q[3].status = TaskStatus::Failure("x".to_string());
    collect_finished(&mut q);
    let ids: Vec<&str> = q.iter().map(|t| t.id.as_str()).collect();
    assert_eq!(ids, vec!["a", "c", "e"]);
    assert!(q.iter().all(|t| matches!(t.status, TaskStatus::InProgress)));
}
