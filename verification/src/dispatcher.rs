use vstd::prelude::*;

use crate::json_structs::{
    json_string, json_string_value, CallFunction, FunctionResult, FunctionStatus, FunctionType,
};

verus! {

/// Where a queued task stands.
pub enum TaskStatus {
    NotStarted,
    InProgress,
    Success(Option<serde_json::Value>),
    Failure(String),
}

/// A queued function call. `R` is the handle of the network request that a
/// task may wait on.
pub struct Task<R> {
    pub function_type: FunctionType,
    pub id: String,
    pub data: Option<serde_json::Value>,
    pub status: TaskStatus,
    pub associated_network_request: Option<R>,
}

/// What starting a task takes.
#[derive(Clone, Copy, Debug, PartialEq, Eq, Structural)]
pub enum TaskAction {
    /// Close the database connection (it may be replaced), then start the
    /// download; the downloader finishes the task later.
    StartDownload,
    /// Open the network request for the latest cycle; the task finishes when
    /// the answer is there.
    StartInstallStatusRequest,
    /// Run the call now and record its outcome in the task.
    Execute,
}

/// The state of a network request, as far as the queue cares.
#[derive(Clone, Copy, Debug, PartialEq, Eq, Structural)]
pub enum RequestState {
    Invalid,
    New,
    WaitingForData,
    DataReady,
    Failed,
}

pub open spec fn action_for(f: FunctionType) -> TaskAction {
    match f {
        FunctionType::DownloadNavdata => TaskAction::StartDownload,
        FunctionType::DownloadNavigationData => TaskAction::StartDownload,
        FunctionType::GetNavigationDataInstallStatus => TaskAction::StartInstallStatusRequest,
        _ => TaskAction::Execute,
    }
}

/// What starting a task of type `f` takes.
pub fn task_action(f: FunctionType) -> (res: TaskAction)
    ensures
        res == action_for(f),
{
    match f {
        FunctionType::DownloadNavdata => TaskAction::StartDownload,
        FunctionType::DownloadNavigationData => TaskAction::StartDownload,
        FunctionType::GetNavigationDataInstallStatus => TaskAction::StartInstallStatusRequest,
        _ => TaskAction::Execute,
    }
}

impl<R> Task<R> {
    /// A new task for a call, not started yet.
    pub fn new(call: CallFunction) -> (res: Self)
        ensures
            res.function_type == call.function,
            res.id == call.id,
            res.data == call.data,
            res.status is NotStarted,
            res.associated_network_request is None,
    {
        Task {
            function_type: call.function,
            id: call.id,
            data: call.data,
            status: TaskStatus::NotStarted,
            associated_network_request: None,
        }
    }
}

/// Queues a call as a new task, behind the tasks already queued.
pub fn add_to_queue<R>(queue: &mut Vec<Task<R>>, call: CallFunction)
    ensures
        final(queue).len() == old(queue).len() + 1,
        forall|i: int| 0 <= i < old(queue).len() ==> #[trigger] final(queue)@[i] == old(queue)@[i],
        ({
            let t = final(queue)@[old(queue).len() as int];
            &&& t.function_type == call.function
            &&& t.id == call.id
            &&& t.data == call.data
            &&& t.status is NotStarted
            &&& t.associated_network_request is None
        }),
{
    queue.push(Task::new(call));
}

pub open spec fn with_status<R>(t: Task<R>, s: TaskStatus) -> Task<R> {
    Task { status: s, ..t }
}

/// The tasks that have not started, with their positions and what starting
/// each one takes, in queue order.
pub open spec fn pending_actions<R>(q: Seq<Task<R>>) -> Seq<(usize, TaskAction)>
    decreases q.len(),
{
    if q.len() == 0 {
        seq![]
    } else {
        let prev = pending_actions(q.drop_last());
        let t = q.last();
        if t.status is NotStarted {
            prev.push(((q.len() - 1) as usize, action_for(t.function_type)))
        } else {
            prev
        }
    }
}

/// Marks every task that has not started as in progress, and tells, in
/// queue order, which tasks were started and what starting each one takes.
/// The caller then performs each action in that order.
pub fn start_pending_tasks<R>(queue: &mut Vec<Task<R>>) -> (started: Vec<(usize, TaskAction)>)
    ensures
        final(queue).len() == old(queue).len(),
        forall|i: int|
            0 <= i < old(queue).len() ==> #[trigger] final(queue)@[i] == (if old(queue)@[i].status is NotStarted {
                with_status(old(queue)@[i], TaskStatus::InProgress)
            } else {
                old(queue)@[i]
            }),
        started@ == pending_actions(old(queue)@),
{
    let ghost q0 = queue@;
    let mut started: Vec<(usize, TaskAction)> = Vec::new();
    let mut i: usize = 0;
    proof {
        assert(q0.take(0) =~= Seq::<Task<R>>::empty());
    }
    while i < queue.len()
        invariant
            i <= queue.len(),
            queue.len() == q0.len(),
            forall|j: int|
                0 <= j < i ==> #[trigger] queue@[j] == (if q0[j].status is NotStarted {
                    with_status(q0[j], TaskStatus::InProgress)
                } else {
                    q0[j]
                }),
            forall|j: int| i <= j < q0.len() ==> #[trigger] queue@[j] == q0[j],
            started@ == pending_actions(q0.take(i as int)),
        decreases queue.len() - i,
    {
        proof {
            let taken = q0.take(i + 1);
            assert(taken.drop_last() =~= q0.take(i as int));
            assert(taken.last() == q0[i as int]);
        }
        if matches!(queue[i].status, TaskStatus::NotStarted) {
            let action = task_action(queue[i].function_type);
            let ghost before = queue@;
            let t = &mut queue[i];
            t.status = TaskStatus::InProgress;
            proof {
                assert(queue@ == before.update(i as int, with_status(q0[i as int], TaskStatus::InProgress)));
            }
            started.push((i, action));
        }
        i = i + 1;
    }
    proof {
        assert(q0.take(q0.len() as int) =~= q0);
    }
    started
}

/// The text a task fails with when its network request fails.
pub open spec fn request_failed_text() -> Seq<char> {
    seq![
        'N', 'e', 't', 'w', 'o', 'r', 'k', ' ', 'r', 'e', 'q', 'u', 'e', 's', 't', ' ', 'f', 'a', 'i', 'l', 'e', 'd',
    ]
}

/// A task in progress that waits on a request whose answer is there, and
/// whose answer the install status report reads.
pub open spec fn reports_install_status<R>(t: Task<R>, s: Option<RequestState>) -> bool {
    &&& t.status is InProgress
    &&& t.associated_network_request is Some
    &&& s == Some(RequestState::DataReady)
    &&& t.function_type == FunctionType::GetNavigationDataInstallStatus
}

/// `t` is `old` except for its status.
pub open spec fn same_call<R>(t: Task<R>, old: Task<R>) -> bool {
    &&& t.function_type == old.function_type
    &&& t.id == old.id
    &&& t.data == old.data
    &&& t.associated_network_request == old.associated_network_request
}

/// `t` is `old`, failed because its network request failed.
pub open spec fn failed_on_request<R>(t: Task<R>, old: Task<R>) -> bool {
    &&& same_call(t, old)
    &&& t.status matches TaskStatus::Failure(e) && e@ == request_failed_text()
}

/// A task in progress whose network request failed.
pub open spec fn request_failed<R>(t: Task<R>, s: Option<RequestState>) -> bool {
    &&& t.status is InProgress
    &&& t.associated_network_request is Some
    &&& s == Some(RequestState::Failed)
}

pub open spec fn install_status_reports<R>(q: Seq<Task<R>>, states: Seq<Option<RequestState>>) -> Seq<usize>
    decreases q.len(),
{
    if q.len() == 0 {
        seq![]
    } else {
        let prev = install_status_reports(q.drop_last(), states);
        if reports_install_status(q.last(), states[q.len() - 1]) {
            prev.push((q.len() - 1) as usize)
        } else {
            prev
        }
    }
}

fn request_failed_string() -> (res: String)
    ensures
        res@ == request_failed_text(),
{
    let s = String::from_str("Network request failed");
    proof {
        reveal_strlit("Network request failed");
    }
    s
}

/// Looks at the tasks in progress that wait on a network request, given the
/// state of each task's request (`states[i]` for task `i`, `None` for a
/// task without a request).
///
/// A task whose request failed fails with `Network request failed`. The
/// result lists, in queue order, the install status tasks whose answer is
/// there: the caller builds their reports. Every other task is left as it is.
pub fn settle_network_tasks<R>(queue: &mut Vec<Task<R>>, states: &Vec<Option<RequestState>>) -> (report: Vec<
    usize,
>)
    requires
        states.len() == old(queue).len(),
    ensures
        final(queue).len() == old(queue).len(),
        forall|i: int|
            0 <= i < old(queue).len() ==> (if request_failed(old(queue)@[i], states@[i]) {
                failed_on_request(#[trigger] final(queue)@[i], old(queue)@[i])
            } else {
                final(queue)@[i] == old(queue)@[i]
            }),
        report@ == install_status_reports(old(queue)@, states@),
{
    let ghost q0 = queue@;
    let mut report: Vec<usize> = Vec::new();
    let mut i: usize = 0;
    proof {
        assert(q0.take(0) =~= Seq::<Task<R>>::empty());
    }
    while i < queue.len()
        invariant
            i <= queue.len(),
            queue.len() == q0.len(),
            states.len() == q0.len(),
            forall|j: int|
                0 <= j < i ==> (if request_failed(q0[j], states@[j]) {
                    failed_on_request(#[trigger] queue@[j], q0[j])
                } else {
                    queue@[j] == q0[j]
                }),
            forall|j: int| i <= j < q0.len() ==> #[trigger] queue@[j] == q0[j],
            report@ == install_status_reports(q0.take(i as int), states@),
        decreases queue.len() - i,
    {
        proof {
            let taken = q0.take(i + 1);
            assert(taken.drop_last() =~= q0.take(i as int));
            assert(taken.last() == q0[i as int]);
        }
        let waiting = matches!(queue[i].status, TaskStatus::InProgress)
            && queue[i].associated_network_request.is_some();
        if waiting {
            match states[i] {
                Some(RequestState::DataReady) => {
                    if queue[i].function_type == FunctionType::GetNavigationDataInstallStatus {
                        report.push(i);
                    }
                },
                Some(RequestState::Failed) => {
                    let text = request_failed_string();
                    let ghost before = queue@;
                    let t = &mut queue[i];
                    t.status = TaskStatus::Failure(text);
                    proof {
                        assert(queue@ == before.update(i as int, queue@[i as int]));
                        assert(failed_on_request(queue@[i as int], q0[i as int]));
                    }
                },
                _ => {},
            }
        }
        i = i + 1;
    }
    proof {
        assert(q0.take(q0.len() as int) =~= q0);
    }
    report
}

/// The answer to a finished task: its identifier, and its result on
/// success or its error text (as a JSON string) on failure.
pub open spec fn result_of<R>(t: Task<R>) -> FunctionResult {
    match t.status {
        TaskStatus::Success(data) => FunctionResult { id: t.id, status: FunctionStatus::Success, data },
        TaskStatus::Failure(e) => FunctionResult {
            id: t.id,
            status: FunctionStatus::Error,
            data: Some(json_string(e@)),
        },
        _ => FunctionResult { id: t.id, status: FunctionStatus::Error, data: None },
    }
}

/// The tasks still in progress, in queue order.
pub open spec fn tasks_in_progress<R>(q: Seq<Task<R>>) -> Seq<Task<R>>
    decreases q.len(),
{
    if q.len() == 0 {
        seq![]
    } else {
        let prev = tasks_in_progress(q.drop_last());
        if q.last().status is InProgress {
            prev.push(q.last())
        } else {
            prev
        }
    }
}

/// The answers to the finished tasks, in queue order.
pub open spec fn finished_results<R>(q: Seq<Task<R>>) -> Seq<FunctionResult>
    decreases q.len(),
{
    if q.len() == 0 {
        seq![]
    } else {
        let prev = finished_results(q.drop_last());
        if q.last().status is InProgress {
            prev
        } else {
            prev.push(result_of(q.last()))
        }
    }
}

/// Every task has been started.
pub open spec fn all_started<R>(q: Seq<Task<R>>) -> bool {
    forall|i: int| 0 <= i < q.len() ==> !(#[trigger] q[i].status is NotStarted)
}

/// Removes the finished tasks from the queue and answers each of them, in
/// queue order; the tasks in progress stay, in their order.
pub fn collect_finished<R>(queue: &mut Vec<Task<R>>) -> (results: Vec<FunctionResult>)
    requires
        all_started(old(queue)@),
    ensures
        final(queue)@ == tasks_in_progress(old(queue)@),
        final(queue)@ == old(queue)@.filter(|t: Task<R>| t.status is InProgress),
        results@ == finished_results(old(queue)@),
{
    let ghost q0 = queue@;
    let mut rest: Vec<Task<R>> = Vec::new();
    std::mem::swap(&mut rest, queue);
    let mut results: Vec<FunctionResult> = Vec::new();
    proof {
        assert(q0.take(0) =~= Seq::<Task<R>>::empty());
        assert(q0.skip(0) =~= q0);
    }
    while rest.len() > 0
        invariant
            rest.len() <= q0.len(),
            rest@ == q0.skip(q0.len() - rest.len()),
            queue@ == tasks_in_progress(q0.take(q0.len() - rest.len())),
            results@ == finished_results(q0.take(q0.len() - rest.len())),
            all_started(q0),
        decreases rest.len(),
    {
        let ghost k: int = q0.len() - rest.len();
        let t = rest.remove(0);
        proof {
            assert(t == q0[k]);
            assert(rest@ =~= q0.skip(k + 1));
            let taken = q0.take(k + 1);
            assert(taken.drop_last() =~= q0.take(k));
            assert(taken.last() == q0[k]);
            assert(!(q0[k].status is NotStarted));
        }
        if matches!(t.status, TaskStatus::InProgress) {
            queue.push(t);
        } else {
            let ghost t0 = t;
            let Task { function_type: _, id, data: _, status, associated_network_request: _ } = t;
            let result = match status {
                TaskStatus::Success(data) => FunctionResult { id, status: FunctionStatus::Success, data },
                TaskStatus::Failure(e) => FunctionResult {
                    id,
                    status: FunctionStatus::Error,
                    data: Some(json_string_value(e)),
                },
                _ => FunctionResult { id, status: FunctionStatus::Error, data: None },
            };
            proof {
                assert(result == result_of(t0));
            }
            results.push(result);
        }
    }
    proof {
        assert(q0.take(q0.len() as int) =~= q0);
        lemma_collect_keeps_exactly_in_progress(q0);
    }
    results
}


/// Starting the pending tasks leaves no task unstarted, so the finished
/// tasks can then be collected.
pub proof fn lemma_start_leaves_none_pending<R>(before: Seq<Task<R>>, after: Seq<Task<R>>)
    requires
        after.len() == before.len(),
        forall|i: int|
            0 <= i < before.len() ==> #[trigger] after[i] == (if before[i].status is NotStarted {
                with_status(before[i], TaskStatus::InProgress)
            } else {
                before[i]
            }),
    ensures
        all_started(after),
{
    assert forall|i: int| 0 <= i < after.len() implies !(#[trigger] after[i].status is NotStarted) by {
        assert(after[i] == (if before[i].status is NotStarted {
            with_status(before[i], TaskStatus::InProgress)
        } else {
            before[i]
        }));
    }
}

/// Settling network tasks starts no task anew: a queue with every task
/// started stays so.
pub proof fn lemma_settle_keeps_started<R>(
    before: Seq<Task<R>>,
    after: Seq<Task<R>>,
    states: Seq<Option<RequestState>>,
)
    requires
        all_started(before),
        after.len() == before.len(),
        forall|i: int|
            0 <= i < before.len() ==> (if request_failed(before[i], states[i]) {
                failed_on_request(#[trigger] after[i], before[i])
            } else {
                after[i] == before[i]
            }),
    ensures
        all_started(after),
{
    assert forall|i: int| 0 <= i < after.len() implies !(#[trigger] after[i].status is NotStarted) by {
        assert(!(before[i].status is NotStarted));
        if request_failed(before[i], states[i]) {
            assert(failed_on_request(after[i], before[i]));
        }
    }
}

/// Collecting finished tasks loses no task: every task either stays in the
/// queue or is answered.
pub proof fn lemma_collect_loses_no_task<R>(q: Seq<Task<R>>)
    ensures
        tasks_in_progress(q).len() + finished_results(q).len() == q.len(),
    decreases q.len(),
{
    if q.len() > 0 {
        lemma_collect_loses_no_task(q.drop_last());
    }
}

/// Collecting finished tasks leaves exactly the tasks in progress: the queue
/// becomes the old queue filtered on being in progress, in the same order,
/// so every task left is in progress and every task that was in progress is
/// left.
pub proof fn lemma_collect_keeps_exactly_in_progress<R>(q: Seq<Task<R>>)
    ensures
        tasks_in_progress(q) == q.filter(|t: Task<R>| t.status is InProgress),
        forall|i: int|
            0 <= i < tasks_in_progress(q).len() ==> (#[trigger] tasks_in_progress(q)[i]).status is InProgress,
        forall|i: int| 0 <= i < q.len() && (#[trigger] q[i]).status is InProgress ==> tasks_in_progress(q).contains(q[i]),
    decreases q.len(),
{
    let pred = |t: Task<R>| t.status is InProgress;
    reveal(Seq::filter);
    if q.len() > 0 {
        lemma_collect_keeps_exactly_in_progress(q.drop_last());
    }
    assert(tasks_in_progress(q) == q.filter(pred));
    assert forall|i: int| 0 <= i < q.filter(pred).len() implies pred(#[trigger] q.filter(pred)[i]) by {
        q.lemma_filter_pred(pred, i);
    }
    assert forall|i: int| 0 <= i < q.len() && pred(#[trigger] q[i]) implies q.filter(pred).contains(q[i]) by {
        q.lemma_filter_contains(pred, i);
    }
}

} // verus!
