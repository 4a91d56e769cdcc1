use vstd::prelude::*;

verus! {

/// A JSON value, carried through the library as it came from a caller or
/// from a query. The library never looks inside one.
#[verifier::external_type_specification]
#[verifier::external_body]
pub struct ExJsonValue(serde_json::Value);

/// The text `s` as a JSON string value.
pub uninterp spec fn json_string(s: Seq<char>) -> serde_json::Value;

/// Wraps `text` in a JSON string value (`serde_json::Value::String`).
#[verifier::external_body]
pub(crate) fn json_string_value(text: String) -> (v: serde_json::Value)
    ensures
        v == json_string(text@),
{
    serde_json::Value::from(text)
}

/// The functions that a caller can ask the interface to run.
#[derive(Clone, Copy, Debug, PartialEq, Eq, Structural)]
pub enum FunctionType {
    DownloadNavdata,
    DownloadNavigationData,
    SetDownloadOptions,
    SetActiveDatabase,
    GetNavigationDataInstallStatus,
    ExecuteSQLQuery,
    GetDatabaseInfo,
    // Ident related queries
    GetAirport,
    GetWaypoints,
    GetVhfNavaids,
    GetNdbNavaids,
    GetAirways,
    GetAirwaysAtFix,
    // Range related queries
    GetAirportsInRange,
    GetWaypointsInRange,
    GetVhfNavaidsInRange,
    GetNdbNavaidsInRange,
    GetAirwaysInRange,
    GetControlledAirspacesInRange,
    GetRestrictiveAirspacesInRange,
    GetCommunicationsInRange,
    // Airport related queries
    GetRunwaysAtAirport,
    GetDeparturesAtAirport,
    GetArrivalsAtAirport,
    GetApproachesAtAirport,
    GetWaypointsAtAirport,
    GetNdbNavaidsAtAirport,
    GetGatesAtAirport,
    GetCommunicationsAtAirport,
    GetGlsNavaidsAtAirport,
    GetPathPointsAtAirport,
}

/// Whether a function call succeeded.
#[derive(Clone, Copy, Debug, PartialEq, Eq, Structural)]
pub enum FunctionStatus {
    Error,
    Success,
}

/// A call of a function, as a caller sends it.
pub struct CallFunction {
    /// Type of function to call.
    pub function: FunctionType,
    /// The unique ID of the function call.
    pub id: String,
    /// Data associated with the function call.
    pub data: Option<serde_json::Value>,
}

/// The answer to a function call.
pub struct FunctionResult {
    /// The unique ID of the function call.
    pub id: String,
    /// Status of the function call.
    pub status: FunctionStatus,
    /// Data associated with the function call.
    pub data: Option<serde_json::Value>,
}

/// The kinds of events the interface emits.
#[derive(Clone, Copy, Debug, PartialEq, Eq, Structural)]
pub enum EventType {
    Heartbeat,
    DownloadProgress,
}

/// An event message.
pub struct Event {
    /// Type of event.
    pub event: EventType,
    /// Data associated with the event.
    pub data: Option<serde_json::Value>,
}

/// The phase a download is in.
#[derive(Clone, Copy, Debug, PartialEq, Eq, Structural)]
pub enum DownloadProgressPhase {
    Downloading,
    Cleaning,
    Extracting,
}

/// The data of a download progress event.
#[derive(Clone, Copy, Debug, PartialEq, Eq, Structural)]
pub struct DownloadProgressEvent {
    /// Phase of the download.
    pub phase: DownloadProgressPhase,
    /// Number of files deleted so far.
    pub deleted: Option<usize>,
    /// Total number of files to unzip.
    pub total_to_unzip: Option<usize>,
    /// Number of files unzipped so far.
    pub unzipped: Option<usize>,
}

/// Parameters of a download call.
pub struct DownloadNavdataParams {
    /// Path to the folder to download to.
    pub path: String,
    /// URL to download from.
    pub url: String,
}

/// Parameters of a call that sets the download options.
#[derive(Clone, Copy, Debug, PartialEq, Eq, Structural)]
pub struct SetDownloadOptionsParams {
    /// Batch size for deleting/extracting files.
    pub batch_size: usize,
}

/// Parameters of a call that sets the active database.
pub struct SetActiveDatabaseParams {
    /// Path to the database file.
    pub path: String,
}

/// Parameters of a raw SQL query.
pub struct ExecuteSQLQueryParams {
    /// SQL query to execute.
    pub sql: String,
    pub params: Vec<String>,
}

/// Parameters of a query by identifier.
pub struct GetByIdentParas {
    /// Identifier of the item.
    pub ident: String,
}

/// Parameters of a query for the airways through a fix.
pub struct GetAtFixParams {
    /// Identifier of the fix.
    pub fix_ident: String,
    /// Region code of the fix.
    pub fix_icao_code: String,
}

/// Parameters of a query around a position. `D` is the type of a degree
/// or distance value.
pub struct GetInRangeParams<D> {
    pub center: crate::fix::Coordinates<D>,
    pub range: D,
}

/// Parameters of a query at an airport.
pub struct GetAtAirportParams {
    pub airport_ident: String,
}

} // verus!
