//! The values that travel between a connection and the coordinator:
//! requests, responses, errors, and the outside work a command waits for.

use vstd::prelude::*;
use crate::session::{DashboardInfo, DashboardView, SampleType};
use crate::timeseries::StoreError;

verus! {

/// The kinds of failure.
#[derive(Clone, Copy, Debug, PartialEq, Eq, Structural)]
pub enum ErrorKind {
    /// A required attribute or option is missing or empty.
    InvalidInput,
    /// No session has the identifier, or a sample file cannot be opened.
    NotFound,
    /// Outside work that a command needed has failed.
    Io,
    /// A frame cannot be read as a request.
    Transport,
    /// Something that should not happen.
    Internal,
}

/// A failure: its kind and a message for people.
#[derive(Clone, Debug, PartialEq, Eq)]
pub struct ProfilerError {
    pub kind: ErrorKind,
    pub message: String,
}

/// A `ProfilerError` as mathematical values.
pub struct ErrorView {
    pub kind: ErrorKind,
    pub message: Seq<char>,
}

impl View for ProfilerError {
    type V = ErrorView;

    open spec fn view(&self) -> ErrorView {
        ErrorView { kind: self.kind, message: self.message@ }
    }
}

/// The failure of kind `InvalidInput` with the given message.
pub open spec fn invalid_input(message: Seq<char>) -> ErrorView {
    ErrorView { kind: ErrorKind::InvalidInput, message }
}

/// The failure of kind `NotFound` with the given message.
pub open spec fn not_found(message: Seq<char>) -> ErrorView {
    ErrorView { kind: ErrorKind::NotFound, message }
}

/// The failure that a store error becomes at the protocol level.
pub open spec fn store_failure(e: StoreError) -> ErrorView {
    match e {
        StoreError::NotFound => ErrorView {
            kind: ErrorKind::NotFound,
            message: "sample file not found"@,
        },
        StoreError::InvalidRange => ErrorView {
            kind: ErrorKind::InvalidInput,
            message: "invalid time range"@,
        },
        StoreError::Unrepresentable => ErrorView {
            kind: ErrorKind::Internal,
            message: "time range cannot be represented"@,
        },
    }
}

impl ProfilerError {
    /// A failure of the given kind with the given message.
    pub fn new(kind: ErrorKind, message: &str) -> (e: ProfilerError)
        ensures
            e@ == (ErrorView { kind, message: message@ }),
    {
        ProfilerError { kind, message: message.to_owned() }
    }

    /// The failure that a store error becomes at the protocol level.
    pub fn from_store(e: StoreError) -> (failure: ProfilerError)
        ensures
            failure@ == store_failure(e),
    {
        match e {
            StoreError::NotFound => ProfilerError::new(ErrorKind::NotFound, "sample file not found"),
            StoreError::InvalidRange => ProfilerError::new(
                ErrorKind::InvalidInput,
                "invalid time range",
            ),
            StoreError::Unrepresentable => ProfilerError::new(
                ErrorKind::Internal,
                "time range cannot be represented",
            ),
        }
    }

    /// The message of the failure.
    pub fn to_string(&self) -> (text: String)
        ensures
            text@ == self@.message,
    {
        self.message.clone()
    }
}

/// A failure of kind `InvalidInput` with the given message.
pub fn new_invalid_input_error(message: &str) -> (e: ProfilerError)
    ensures
        e@ == invalid_input(message@),
{
    ProfilerError::new(ErrorKind::InvalidInput, message)
}

/// One session in a listing.
#[derive(Clone, Debug, PartialEq, Eq)]
pub struct SessionEntry {
    pub session_id: String,
    pub sample_type: SampleType,
}

/// A `SessionEntry` as mathematical values.
pub struct EntryView {
    pub session_id: Seq<char>,
    pub sample_type: SampleType,
}

impl View for SessionEntry {
    type V = EntryView;

    open spec fn view(&self) -> EntryView {
        EntryView { session_id: self.session_id@, sample_type: self.sample_type }
    }
}

/// The views of the entries of a listing, in order.
pub open spec fn entry_views(entries: Seq<SessionEntry>) -> Seq<EntryView> {
    Seq::new(entries.len(), |i: int| entries[i]@)
}

/// The views of a list of texts, in order.
pub open spec fn text_views(texts: Seq<String>) -> Seq<Seq<char>> {
    Seq::new(texts.len(), |i: int| texts[i]@)
}

/// One sample file in a listing of the history.
#[derive(Clone, Debug, PartialEq, Eq)]
pub struct HistoryEntry {
    pub path: String,
    pub sample_type: SampleType,
}

/// A `HistoryEntry` as mathematical values.
pub struct HistoryView {
    pub path: Seq<char>,
    pub sample_type: SampleType,
}

impl View for HistoryEntry {
    type V = HistoryView;

    open spec fn view(&self) -> HistoryView {
        HistoryView { path: self.path@, sample_type: self.sample_type }
    }
}

/// The views of the entries of a history listing, in order.
pub open spec fn history_views(entries: Seq<HistoryEntry>) -> Seq<HistoryView> {
    Seq::new(entries.len(), |i: int| entries[i]@)
}

/// The history listing of the sample files at `paths`: one entry each, in
/// order, each of type `file`.
pub open spec fn history_of(paths: Seq<Seq<char>>) -> Seq<HistoryView> {
    Seq::new(paths.len(), |i: int| HistoryView { path: paths[i], sample_type: SampleType::File })
}

/// What a response carries.
#[derive(Clone, Debug, PartialEq, Eq)]
pub enum ResponseData {
    /// The open sessions.
    SampleSessions(Vec<SessionEntry>),
    /// The sample files kept under the history root.
    HistorySamples(Vec<HistoryEntry>),
    /// The session that a command has made.
    Session(SessionEntry),
    /// The dashboard of a session.
    Dashboard(DashboardInfo),
    /// The message of a failure.
    Message(String),
}

/// A `ResponseData` as mathematical values.
pub enum DataView {
    SampleSessions(Seq<EntryView>),
    HistorySamples(Seq<HistoryView>),
    Session(EntryView),
    Dashboard(DashboardView),
    Message(Seq<char>),
}

impl View for ResponseData {
    type V = DataView;

    open spec fn view(&self) -> DataView {
        match self {
            ResponseData::SampleSessions(entries) => DataView::SampleSessions(
                entry_views(entries@),
            ),
            ResponseData::HistorySamples(entries) => DataView::HistorySamples(
                history_views(entries@),
            ),
            ResponseData::Session(entry) => DataView::Session(entry@),
            ResponseData::Dashboard(info) => DataView::Dashboard(info@),
            ResponseData::Message(message) => DataView::Message(message@),
        }
    }
}

/// The envelope of every answer: a status, the command it answers, and the
/// payload or the failure's message.
#[derive(Clone, Debug, PartialEq, Eq)]
pub struct FlareResponse<T: ?Sized> {
    pub result: String,
    pub cmd: String,
    pub data: Box<T>,
}

/// A `FlareResponse` as mathematical values.
pub struct ResponseView<V> {
    pub result: Seq<char>,
    pub cmd: Seq<char>,
    pub data: V,
}

impl<T: View> View for FlareResponse<T> {
    type V = ResponseView<T::V>;

    open spec fn view(&self) -> ResponseView<T::V> {
        ResponseView { result: self.result@, cmd: self.cmd@, data: (*self.data)@ }
    }
}

/// The answer to a command that succeeded.
pub open spec fn success_response(cmd: Seq<char>, data: DataView) -> ResponseView<DataView> {
    ResponseView { result: "success"@, cmd, data }
}

/// The answer to a command that failed.
pub open spec fn error_response(cmd: Seq<char>, message: Seq<char>) -> ResponseView<DataView> {
    ResponseView { result: "error"@, cmd, data: DataView::Message(message) }
}

/// Wraps the payload of a command that succeeded.
pub fn wrap_response(cmd: &str, data: ResponseData) -> (response: FlareResponse<ResponseData>)
    ensures
        response@ == success_response(cmd@, data@),
{
    FlareResponse { result: "success".to_owned(), cmd: cmd.to_owned(), data: Box::new(data) }
}

/// Wraps the message of a command that failed.
pub fn wrap_error_response(cmd: &str, message: &str) -> (response: FlareResponse<ResponseData>)
    ensures
        response@ == error_response(cmd@, message@),
{
    FlareResponse {
        result: "error".to_owned(),
        cmd: cmd.to_owned(),
        data: Box::new(ResponseData::Message(message.to_owned())),
    }
}

/// The options of a request that the commands read. An option is `None`
/// when the request has none of that name, or one of another type.
#[derive(Clone, Debug, PartialEq, Eq)]
pub struct RequestOptions {
    pub sample_data_dir: Option<String>,
    pub agent_addr: Option<String>,
    pub session_id: Option<String>,
    pub target_pid: Option<u64>,
    pub sample_interval_ms: Option<u64>,
    pub sample_duration_sec: Option<u64>,
}

/// `RequestOptions` as mathematical values.
pub struct OptionsView {
    pub sample_data_dir: Option<Seq<char>>,
    pub agent_addr: Option<Seq<char>>,
    pub session_id: Option<Seq<char>>,
    pub target_pid: Option<u64>,
    pub sample_interval_ms: Option<u64>,
    pub sample_duration_sec: Option<u64>,
}

/// The view of a text that may be missing.
pub open spec fn optional_text(text: Option<String>) -> Option<Seq<char>> {
    match text {
        Some(s) => Some(s@),
        None => None,
    }
}

impl View for RequestOptions {
    type V = OptionsView;

    open spec fn view(&self) -> OptionsView {
        OptionsView {
            sample_data_dir: optional_text(self.sample_data_dir),
            agent_addr: optional_text(self.agent_addr),
            session_id: optional_text(self.session_id),
            target_pid: self.target_pid,
            sample_interval_ms: self.sample_interval_ms,
            sample_duration_sec: self.sample_duration_sec,
        }
    }
}

impl OptionsView {
    /// No option at all.
    pub open spec fn empty() -> OptionsView {
        OptionsView {
            sample_data_dir: None,
            agent_addr: None,
            session_id: None,
            target_pid: None,
            sample_interval_ms: None,
            sample_duration_sec: None,
        }
    }
}

impl RequestOptions {
    /// No option at all.
    pub fn new() -> (options: RequestOptions)
        ensures
            options@ == OptionsView::empty(),
    {
        RequestOptions {
            sample_data_dir: None,
            agent_addr: None,
            session_id: None,
            target_pid: None,
            sample_interval_ms: None,
            sample_duration_sec: None,
        }
    }
}

/// A request: the command, empty when the request names none, and its
/// options.
#[derive(Clone, Debug, PartialEq, Eq)]
pub struct Request {
    pub cmd: String,
    pub options: RequestOptions,
}

/// A `Request` as mathematical values.
pub struct RequestView {
    pub cmd: Seq<char>,
    pub options: OptionsView,
}

impl View for Request {
    type V = RequestView;

    open spec fn view(&self) -> RequestView {
        RequestView { cmd: self.cmd@, options: self.options@ }
    }
}

/// Sampling interval of an attach when the request gives none, in
/// milliseconds.
pub const DEFAULT_SAMPLE_INTERVAL_MS: u64 = 20;

/// Sampling duration of an attach when the request gives none, in seconds.
pub const DEFAULT_SAMPLE_DURATION_SEC: u64 = 0;

/// The checked parameters of an attach to a running JVM.
#[derive(Clone, Copy, Debug, PartialEq, Eq, Structural)]
pub struct AttachSettings {
    pub target_pid: u64,
    pub sample_interval_ms: u64,
    pub sample_duration_sec: u64,
}

/// Outside work that a command needs before it can be answered.
#[derive(Clone, Debug, PartialEq, Eq)]
pub enum Pending {
    /// List the sample files under the history root.
    ListHistory,
    /// Read the header of the sample file under the directory.
    OpenSample { sample_data_dir: String },
    /// Connect to the agent at the address and subscribe to its events.
    ConnectAgent { agent_addr: String },
}

/// `Pending` as mathematical values.
pub enum PendingView {
    ListHistory,
    OpenSample { sample_data_dir: Seq<char> },
    ConnectAgent { agent_addr: Seq<char> },
}

impl View for Pending {
    type V = PendingView;

    open spec fn view(&self) -> PendingView {
        match self {
            Pending::ListHistory => PendingView::ListHistory,
            Pending::OpenSample { sample_data_dir } => PendingView::OpenSample {
                sample_data_dir: sample_data_dir@,
            },
            Pending::ConnectAgent { agent_addr } => PendingView::ConnectAgent {
                agent_addr: agent_addr@,
            },
        }
    }
}

/// What the coordinator decides on a request.
#[derive(Clone, Debug, PartialEq, Eq)]
pub enum Step {
    /// Send this response.
    Reply(FlareResponse<ResponseData>),
    /// Do this work, then hand its outcome to the handler of the command.
    Await(Pending),
    /// The parameters of an attach are in order. Attaching is not this
    /// library's work, and nothing is sent.
    Attach(AttachSettings),
    /// The command is not known. Nothing is sent.
    Silent,
}

/// A `Step` as mathematical values.
pub enum StepView {
    Reply(ResponseView<DataView>),
    Await(PendingView),
    Attach(AttachSettings),
    Silent,
}

impl View for Step {
    type V = StepView;

    open spec fn view(&self) -> StepView {
        match self {
            Step::Reply(response) => StepView::Reply(response@),
            Step::Await(work) => StepView::Await(work@),
            Step::Attach(settings) => StepView::Attach(*settings),
            Step::Silent => StepView::Silent,
        }
    }
}

} // verus!
