use vstd::prelude::*;

use crate::dispatcher::RequestState;
use crate::procedure::opt_view;
use vstd::string::StrSliceExecFns;

verus! {

/// The call that downloads and installs navigation data from `url`.
pub struct DownloadNavigationData {
    pub url: String,
}

/// The call that reports which navigation data is installed.
#[derive(Clone, Copy, Debug, PartialEq, Eq, Structural)]
pub struct GetNavigationDataInstallStatus {}

/// How a call stands after it was polled once.
#[derive(Clone, Copy, Debug, PartialEq, Eq, Structural)]
pub enum RunStatus {
    InProgress,
    Finished,
}

/// What waiting on a network request gives, once polled.
#[derive(Clone, Copy, Debug, PartialEq, Eq, Structural)]
pub enum RequestPoll {
    /// Not answered yet: poll again later.
    Pending,
    /// The answer is there: take its data.
    Ready,
    /// The request is invalid: fail with its error code.
    Invalid,
    /// The request failed: fail with its error code.
    Failed,
}

/// What polling a request in `state` gives.
pub fn poll_request(state: RequestState) -> (res: RequestPoll)
    ensures
        res == (match state {
            RequestState::New | RequestState::WaitingForData => RequestPoll::Pending,
            RequestState::DataReady => RequestPoll::Ready,
            RequestState::Invalid => RequestPoll::Invalid,
            RequestState::Failed => RequestPoll::Failed,
        }),
{
    match state {
        RequestState::New | RequestState::WaitingForData => RequestPoll::Pending,
        RequestState::DataReady => RequestPoll::Ready,
        RequestState::Invalid => RequestPoll::Invalid,
        RequestState::Failed => RequestPoll::Failed,
    }
}

/// Whether a pending error report stays in the pool after an update: a
/// report not sent yet stays when sending it worked (`sent`); a sent one
/// stays until its answer is there.
pub fn report_kept(request: Option<RequestState>, sent: bool) -> (res: bool)
    ensures
        res == (match request {
            None => sent,
            Some(state) => state != RequestState::DataReady,
        }),
{
    match request {
        None => sent,
        Some(state) => !matches!(state, RequestState::DataReady),
    }
}

/// What the queue does after polling the call at its front.
#[derive(Clone, Copy, Debug, PartialEq, Eq, Structural)]
pub enum QueueStep {
    /// The call is not done: keep it at the front and stop for this update,
    /// so that calls finish in the order they came.
    Wait,
    /// The call is done (it finished or failed): remove it and poll the next.
    Remove,
}

/// The queue step after polling the front call: `Some(status)` when the call
/// ran without error, `None` when it failed.
pub fn queue_step(outcome: Option<RunStatus>) -> (res: QueueStep)
    ensures
        res == (if outcome == Some(RunStatus::InProgress) {
            QueueStep::Wait
        } else {
            QueueStep::Remove
        }),
{
    match outcome {
        Some(RunStatus::InProgress) => QueueStep::Wait,
        _ => QueueStep::Remove,
    }
}

/// Milliseconds between two heartbeats.
pub const HEARTBEAT_INTERVAL_MS: u128 = 1000;

/// A heartbeat is due once the interval has passed since the last one.
pub fn heartbeat_due(elapsed_ms: u128) -> (res: bool)
    ensures
        res == (elapsed_ms >= HEARTBEAT_INTERVAL_MS),
{
    elapsed_ms >= HEARTBEAT_INTERVAL_MS
}

/// `c` is the ASCII letter `lower` in either case.
pub open spec fn is_letter_either_case(c: char, lower: char) -> bool {
    c == lower || c as u32 + 32 == lower as u32
}

/// The name ends, in any letter case, with `.s3db`: the navigation database
/// file of an archive.
pub open spec fn is_database_file_name(name: Seq<char>) -> bool {
    let n = name.len();
    &&& n >= 5
    &&& name[n - 5] == '.'
    &&& is_letter_either_case(name[n - 4], 's')
    &&& name[n - 3] == '3'
    &&& is_letter_either_case(name[n - 2], 'd')
    &&& is_letter_either_case(name[n - 1], 'b')
}

fn letter_either_case(c: char, lower: char) -> (res: bool)
    requires
        'a' <= lower <= 'z',
    ensures
        res == is_letter_either_case(c, lower),
{
    c == lower || (c as u32) + 32 == (lower as u32)
}

/// Tells whether an archive entry is the navigation database file.
pub fn is_database_file(name: &str) -> (res: bool)
    ensures
        res == is_database_file_name(name@),
{
    let n = name.unicode_len();
    if n < 5 {
        return false;
    }
    name.get_char(n - 5) == '.' && letter_either_case(name.get_char(n - 4), 's') && name.get_char(n - 3)
        == '3' && letter_either_case(name.get_char(n - 2), 'd') && letter_either_case(
        name.get_char(n - 1),
        'b',
    )
}

/// The position of the first entry of an archive that is the navigation
/// database file, if any.
pub fn find_database_file(names: &Vec<String>) -> (res: Option<usize>)
    ensures
        match res {
            Some(i) => i < names.len() && is_database_file_name(names@[i as int]@) && forall|j: int|
                0 <= j < i ==> !is_database_file_name(#[trigger] names@[j]@),
            None => forall|j: int| 0 <= j < names.len() ==> !is_database_file_name(#[trigger] names@[j]@),
        },
{
    let mut i: usize = 0;
    while i < names.len()
        invariant
            i <= names.len(),
            forall|j: int| 0 <= j < i ==> !is_database_file_name(#[trigger] names@[j]@),
        decreases names.len() - i,
    {
        if is_database_file(names[i].as_str()) {
            return Some(i);
        }
        i = i + 1;
    }
    None
}

/// What the installed database's cycle file says.
pub struct CycleInfo {
    pub cycle: String,
    pub revision: String,
    pub name: String,
    pub format: String,
    pub validity_period: String,
}

/// The answer to an install status call.
pub struct NavigationDataInstallStatus {
    pub status: String,
    pub installed_format: Option<String>,
    pub installed_revision: Option<String>,
    pub installed_cycle: Option<String>,
    pub installed_path: Option<String>,
    pub validity_period: Option<String>,
    pub latest_cycle: Option<String>,
}

/// The status every report gives: data is always reported as installed by hand.
pub open spec fn manual_text() -> Seq<char> {
    seq!['M', 'a', 'n', 'u', 'a', 'l']
}

impl GetNavigationDataInstallStatus {
    /// The report on the installed database, at `db_path`, and the latest
    /// cycle the endpoint announced (`None` when it could not be reached).
    pub fn report(&self, installed: CycleInfo, db_path: &str, latest_cycle: Option<String>) -> (res:
        NavigationDataInstallStatus)
        ensures
            res.status@ == manual_text(),
            opt_view(res.installed_format) == Some(installed.format@),
            opt_view(res.installed_revision) == Some(installed.revision@),
            opt_view(res.installed_cycle) == Some(installed.cycle@),
            opt_view(res.installed_path) == Some(db_path@),
            opt_view(res.validity_period) == Some(installed.validity_period@),
            opt_view(res.latest_cycle) == opt_view(latest_cycle),
    {
        let status = String::from_str("Manual");
        proof {
            reveal_strlit("Manual");
        }
        NavigationDataInstallStatus {
            status,
            installed_format: Some(installed.format),
            installed_revision: Some(installed.revision),
            installed_cycle: Some(installed.cycle),
            installed_path: Some(db_path.to_string()),
            validity_period: Some(installed.validity_period),
            latest_cycle,
        }
    }
}

/// The data of a download progress event, counted in bytes and chunks.
#[derive(Clone, Copy, Debug, PartialEq, Eq, Structural)]
pub struct DownloadProgressEvent {
    /// The total amount of bytes to download.
    pub total_bytes: usize,
    /// The amount of bytes downloaded.
    pub downloaded_bytes: usize,
    /// The chunk number (starting at 0) of the current download.
    pub current_chunk: usize,
    /// The total number of chunks needed to download.
    pub total_chunks: usize,
}

/// Information about the current addon.
pub struct Addon {
    pub developer: String,
    pub product: String,
}

/// Configuration data provided by the developer.
pub struct Config {
    pub addon: Addon,
}

/// The HTTP methods the network helper uses.
#[derive(Clone, Copy, Debug, PartialEq, Eq, Structural)]
pub enum Method {
    Get,
}

} // verus!
