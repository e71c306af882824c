//! How the coordinator answers each command.
//!
//! A command that needs no outside work is answered at once. One that does
//! (listing the history, reading a sample file, reaching an agent) is
//! answered in two steps: `dispatch` checks the request and names the work,
//! and `complete` takes the outcome of the work and gives the answer.

use vstd::prelude::*;
use crate::decode::{decode_request, decoded};
use crate::profiler::{opened_header, Profiler, ProfilerView};
use crate::protocol::{
    error_response,
    history_of,
    history_views,
    invalid_input,
    new_invalid_input_error,
    not_found,
    store_failure,
    success_response,
    text_views,
    wrap_error_response,
    wrap_response,
    AttachSettings,
    DataView,
    EntryView,
    ErrorKind,
    ErrorView,
    FlareResponse,
    HistoryEntry,
    HistoryView,
    OptionsView,
    Pending,
    PendingView,
    ProfilerError,
    Request,
    RequestOptions,
    RequestView,
    ResponseData,
    ResponseView,
    SessionEntry,
    Step,
    StepView,
    DEFAULT_SAMPLE_DURATION_SEC,
    DEFAULT_SAMPLE_INTERVAL_MS,
};
use crate::session::{LiveState, SampleType, SessionView};
use crate::timeseries::StoreError;

verus! {

/// The outcome of the outside work that a command waited for.
#[derive(Debug, PartialEq, Eq)]
pub enum Outcome {
    /// The paths found under the history root, or why listing failed.
    Listing(Result<Vec<String>, String>),
    /// The first bytes of the sample file, or nothing if it could not be
    /// read.
    Header(Option<Vec<u8>>),
    /// Whether the agent was reached and subscribed to, or why not.
    Handshake(Result<(), String>),
}

/// An `Outcome` as mathematical values.
pub enum OutcomeView {
    Listing(Result<Seq<Seq<char>>, Seq<char>>),
    Header(Option<Seq<u8>>),
    Handshake(Result<(), Seq<char>>),
}

impl View for Outcome {
    type V = OutcomeView;

    open spec fn view(&self) -> OutcomeView {
        match self {
            Outcome::Listing(Ok(paths)) => OutcomeView::Listing(Ok(text_views(paths@))),
            Outcome::Listing(Err(message)) => OutcomeView::Listing(Err(message@)),
            Outcome::Header(Some(bytes)) => OutcomeView::Header(Some(bytes@)),
            Outcome::Header(None) => OutcomeView::Header(None),
            Outcome::Handshake(Ok(_)) => OutcomeView::Handshake(Ok(())),
            Outcome::Handshake(Err(message)) => OutcomeView::Handshake(Err(message@)),
        }
    }
}

/// The checked parameters of an attach, or the failure when the request
/// names no target.
pub open spec fn attach_settings(options: OptionsView) -> Result<AttachSettings, ErrorView> {
    match options.target_pid {
        Some(target_pid) => Ok(
            AttachSettings {
                target_pid,
                sample_interval_ms: match options.sample_interval_ms {
                    Some(interval) => interval,
                    None => DEFAULT_SAMPLE_INTERVAL_MS,
                },
                sample_duration_sec: match options.sample_duration_sec {
                    Some(duration) => duration,
                    None => DEFAULT_SAMPLE_DURATION_SEC,
                },
            },
        ),
        None => Err(invalid_input("missing option 'target_pid'"@)),
    }
}

/// The answer to `dashboard`.
pub open spec fn dashboard_response(profiler: ProfilerView, cmd: Seq<char>, options: OptionsView)
    -> Result<ResponseView<DataView>, ErrorView> {
    match options.session_id {
        Some(session_id) => if profiler.has_session(session_id) {
            Ok(success_response(cmd, DataView::Dashboard(profiler.session(session_id).dashboard())))
        } else {
            Err(not_found("sample instance not found"@))
        },
        None => Err(invalid_input("missing option 'session_id'"@)),
    }
}

/// What the coordinator decides on a request: a response, outside work, or
/// silence; or the failure that the connection turns into an error
/// response.
pub open spec fn step_for(profiler: ProfilerView, request: RequestView) -> Result<
    StepView,
    ErrorView,
> {
    let cmd = request.cmd;
    let options = request.options;
    if cmd.len() == 0 {
        Err(invalid_input("missing attribute 'cmd'"@))
    } else if cmd == "list_sessions"@ {
        Ok(StepView::Reply(success_response(cmd, DataView::SampleSessions(profiler.entries()))))
    } else if cmd == "history_samples"@ {
        Ok(StepView::Await(PendingView::ListHistory))
    } else if cmd == "open_sample"@ {
        match options.sample_data_dir {
            Some(sample_data_dir) => if sample_data_dir.len() > 0 {
                Ok(StepView::Await(PendingView::OpenSample { sample_data_dir }))
            } else {
                Err(invalid_input("missing option 'sample_data_dir'"@))
            },
            None => Err(invalid_input("missing option 'sample_data_dir'"@)),
        }
    } else if cmd == "attach_jvm"@ {
        match attach_settings(options) {
            Ok(settings) => Ok(StepView::Attach(settings)),
            Err(e) => Err(e),
        }
    } else if cmd == "connect_agent"@ {
        match options.agent_addr {
            Some(agent_addr) => Ok(StepView::Await(PendingView::ConnectAgent { agent_addr })),
            None => Err(invalid_input("missing option 'agent_addr'"@)),
        }
    } else if cmd == "dashboard"@ {
        match dashboard_response(profiler, cmd, options) {
            Ok(response) => Ok(StepView::Reply(response)),
            Err(e) => Err(e),
        }
    } else {
        Ok(StepView::Silent)
    }
}

/// The failure when the outcome handed in is not that of the work that was
/// asked for.
pub open spec fn unexpected_outcome() -> ErrorView {
    ErrorView { kind: ErrorKind::Internal, message: "unexpected outcome"@ }
}

/// What a command that waited for outside work is answered with, and the
/// registry afterwards. Opening a sample under an empty directory fails
/// with `InvalidInput` whatever was read, as it does when the request is
/// checked.
pub open spec fn completed(
    profiler: ProfilerView,
    cmd: Seq<char>,
    work: PendingView,
    outcome: OutcomeView,
) -> (Result<ResponseView<DataView>, ErrorView>, ProfilerView) {
    match (work, outcome) {
        (PendingView::ListHistory, OutcomeView::Listing(Ok(paths))) => (
            Ok(success_response(cmd, DataView::HistorySamples(history_of(paths)))),
            profiler,
        ),
        (PendingView::ListHistory, OutcomeView::Listing(Err(message))) => (
            Err(ErrorView { kind: ErrorKind::Io, message }),
            profiler,
        ),
        (PendingView::OpenSample { sample_data_dir }, OutcomeView::Header(bytes)) => {
            let header = match bytes {
                Some(bytes) => crate::timeseries::header_of(bytes),
                None => None,
            };
            if sample_data_dir.len() == 0 {
                (Err(invalid_input("missing option 'sample_data_dir'"@)), profiler)
            } else {
                match header {
                    Some(header) => (
                        Ok(
                            success_response(
                                cmd,
                                DataView::Session(
                                    EntryView {
                                        session_id: sample_data_dir,
                                        sample_type: SampleType::File,
                                    },
                                ),
                            ),
                        ),
                        profiler.with_session(
                            SessionView::File { dir_path: sample_data_dir, header },
                        ),
                    ),
                    None => (Err(store_failure(StoreError::NotFound)), profiler),
                }
            }
        },
        (PendingView::ConnectAgent { agent_addr }, OutcomeView::Handshake(Ok(_))) => (
            Ok(
                success_response(
                    cmd,
                    DataView::Session(
                        EntryView { session_id: agent_addr, sample_type: SampleType::Live },
                    ),
                ),
            ),
            profiler.with_session(SessionView::Live { agent_addr, state: LiveState::initial() }),
        ),
        (PendingView::ConnectAgent { agent_addr }, OutcomeView::Handshake(Err(message))) => (
            Err(ErrorView { kind: ErrorKind::Io, message }),
            profiler,
        ),
        _ => (Err(unexpected_outcome()), profiler),
    }
}

/// The response that a handler's result is sent as: the response itself,
/// or an error response with the failure's message.
pub open spec fn answer_for(cmd: Seq<char>, result: Result<ResponseView<DataView>, ErrorView>)
    -> ResponseView<DataView> {
    match result {
        Ok(response) => response,
        Err(e) => error_response(cmd, e.message),
    }
}

/// The view of a handler's result.
pub open spec fn response_result_view(
    result: Result<FlareResponse<ResponseData>, ProfilerError>,
) -> Result<ResponseView<DataView>, ErrorView> {
    match result {
        Ok(response) => Ok(response@),
        Err(e) => Err(e@),
    }
}

/// The view of what `dispatch` returns.
pub open spec fn step_result_view(result: Result<Step, ProfilerError>) -> Result<
    StepView,
    ErrorView,
> {
    match result {
        Ok(step) => Ok(step@),
        Err(e) => Err(e@),
    }
}

/// Tells whether two texts are the same.
fn same_text(a: &str, b: &str) -> (same: bool)
    ensures
        same == (a@ == b@),
{
    a.to_owned() == b.to_owned()
}

impl Profiler {
    /// Answers `list_sessions`.
    pub fn handle_list_sessions(&self, cmd: &str) -> (result: Result<
        FlareResponse<ResponseData>,
        ProfilerError,
    >)
        ensures
            response_result_view(result) == Ok::<ResponseView<DataView>, ErrorView>(
                success_response(cmd@, DataView::SampleSessions(self@.entries())),
            ),
    {
        Ok(wrap_response(cmd, ResponseData::SampleSessions(self.list_sessions())))
    }

    /// Answers `history_samples`, given what listing the history root gave.
    pub fn handle_history_samples(&self, cmd: &str, listing: Result<Vec<String>, String>) -> (result:
        Result<FlareResponse<ResponseData>, ProfilerError>)
        ensures
            response_result_view(result) == completed(
                self@,
                cmd@,
                PendingView::ListHistory,
                Outcome::Listing(listing)@,
            ).0,
    {
        match listing {
            Ok(paths) => {
                let mut entries: Vec<HistoryEntry> = Vec::new();
                let mut i: usize = 0;
                while i < paths.len()
                    invariant
                        i <= paths@.len(),
                        entries@.len() == i,
                        forall|j: int|
                            0 <= j < i ==> (#[trigger] entries@[j])@ == (HistoryView {
                                path: paths@[j]@,
                                sample_type: SampleType::File,
                            }),
                    decreases paths@.len() - i,
                {
                    entries.push(
                        HistoryEntry { path: paths[i].clone(), sample_type: SampleType::File },
                    );
                    i = i + 1;
                }
                assert(history_views(entries@) =~= history_of(text_views(paths@)));
                Ok(wrap_response(cmd, ResponseData::HistorySamples(entries)))
            },
            Err(message) => Err(ProfilerError { kind: ErrorKind::Io, message }),
        }
    }

    /// Answers `open_sample` for a directory, given the first bytes of the
    /// sample file under it.
    ///
    /// An empty directory is no directory: the command fails with
    /// `InvalidInput`, whatever the bytes are, and no session is made.
    pub fn handle_open_sample(
        &mut self,
        cmd: &str,
        sample_data_dir: &str,
        header_bytes: Option<&[u8]>,
    ) -> (result: Result<FlareResponse<ResponseData>, ProfilerError>)
        ensures
            sample_data_dir@.len() == 0 ==> {
                &&& response_result_view(result) == Err::<ResponseView<DataView>, ErrorView>(
                    invalid_input("missing option 'sample_data_dir'"@),
                )
                &&& final(self)@ == old(self)@
            },
            sample_data_dir@.len() > 0 ==> match opened_header(header_bytes) {
                Some(header) => {
                    &&& response_result_view(result) == Ok::<ResponseView<DataView>, ErrorView>(
                        success_response(
                            cmd@,
                            DataView::Session(
                                EntryView {
                                    session_id: sample_data_dir@,
                                    sample_type: SampleType::File,
                                },
                            ),
                        ),
                    )
                    &&& final(self)@ == old(self)@.with_session(
                        SessionView::File { dir_path: sample_data_dir@, header },
                    )
                },
                None => {
                    &&& response_result_view(result) == Err::<ResponseView<DataView>, ErrorView>(
                        store_failure(StoreError::NotFound),
                    )
                    &&& final(self)@ == old(self)@
                },
            },
    {
        if sample_data_dir.is_empty() {
            return Err(new_invalid_input_error("missing option 'sample_data_dir'"));
        }
        match self.open_sample(sample_data_dir, header_bytes) {
            Ok(session_id) => Ok(
                wrap_response(
                    cmd,
                    ResponseData::Session(SessionEntry { session_id, sample_type: SampleType::File }),
                ),
            ),
            Err(e) => Err(e),
        }
    }

    /// Checks the parameters of `attach_jvm`. Attaching itself is not this
    /// library's work.
    pub fn handle_attach_jvm(&self, options: &RequestOptions) -> (result: Result<
        AttachSettings,
        ProfilerError,
    >)
        ensures
            match attach_settings(options@) {
                Ok(settings) => result == Ok::<AttachSettings, ProfilerError>(settings),
                Err(failure) => result matches Err(e) && e@ == failure,
            },
    {
        let target_pid: u64 = match options.target_pid {
            Some(target_pid) => target_pid,
            None => {
                return Err(new_invalid_input_error("missing option 'target_pid'"));
            },
        };
        let sample_interval_ms: u64 = match options.sample_interval_ms {
            Some(interval) => interval,
            None => DEFAULT_SAMPLE_INTERVAL_MS,
        };
        let sample_duration_sec: u64 = match options.sample_duration_sec {
            Some(duration) => duration,
            None => DEFAULT_SAMPLE_DURATION_SEC,
        };
        Ok(AttachSettings { target_pid, sample_interval_ms, sample_duration_sec })
    }

    /// Answers `connect_agent` for an address, given how reaching the agent
    /// went.
    pub fn handle_connect_agent(
        &mut self,
        cmd: &str,
        agent_addr: &str,
        handshake: Result<(), String>,
    ) -> (result: Result<FlareResponse<ResponseData>, ProfilerError>)
        ensures
            response_result_view(result) == completed(
                old(self)@,
                cmd@,
                PendingView::ConnectAgent { agent_addr: agent_addr@ },
                Outcome::Handshake(handshake)@,
            ).0,
            final(self)@ == completed(
                old(self)@,
                cmd@,
                PendingView::ConnectAgent { agent_addr: agent_addr@ },
                Outcome::Handshake(handshake)@,
            ).1,
    {
        match self.connect_agent(agent_addr, handshake) {
            Ok(session_id) => Ok(
                wrap_response(
                    cmd,
                    ResponseData::Session(SessionEntry { session_id, sample_type: SampleType::Live }),
                ),
            ),
            Err(e) => Err(e),
        }
    }

    /// Answers `dashboard`.
    pub fn handle_dashboard_request(&self, cmd: &str, options: &RequestOptions) -> (result: Result<
        FlareResponse<ResponseData>,
        ProfilerError,
    >)
        ensures
            response_result_view(result) == dashboard_response(self@, cmd@, options@),
    {
        let session_id = match &options.session_id {
            Some(session_id) => session_id,
            None => {
                return Err(new_invalid_input_error("missing option 'session_id'"));
            },
        };
        match self.get_dashboard(session_id.as_str()) {
            Ok(info) => Ok(wrap_response(cmd, ResponseData::Dashboard(info))),
            Err(e) => Err(e),
        }
    }

    /// Decides what to do on a request.
    pub fn dispatch(&self, request: &Request) -> (result: Result<Step, ProfilerError>)
        ensures
            step_result_view(result) == step_for(self@, request@),
    {
        let cmd = request.cmd.as_str();
        let options = &request.options;
        if cmd.is_empty() {
            Err(new_invalid_input_error("missing attribute 'cmd'"))
        } else if same_text(cmd, "list_sessions") {
            match self.handle_list_sessions(cmd) {
                Ok(response) => Ok(Step::Reply(response)),
                Err(e) => Err(e),
            }
        } else if same_text(cmd, "history_samples") {
            Ok(Step::Await(Pending::ListHistory))
        } else if same_text(cmd, "open_sample") {
            match &options.sample_data_dir {
                Some(sample_data_dir) => if sample_data_dir.as_str().is_empty() {
                    Err(new_invalid_input_error("missing option 'sample_data_dir'"))
                } else {
                    Ok(Step::Await(Pending::OpenSample { sample_data_dir: sample_data_dir.clone() }))
                },
                None => Err(new_invalid_input_error("missing option 'sample_data_dir'")),
            }
        } else if same_text(cmd, "attach_jvm") {
            match self.handle_attach_jvm(options) {
                Ok(settings) => Ok(Step::Attach(settings)),
                Err(e) => Err(e),
            }
        } else if same_text(cmd, "connect_agent") {
            match &options.agent_addr {
                Some(agent_addr) => Ok(
                    Step::Await(Pending::ConnectAgent { agent_addr: agent_addr.clone() }),
                ),
                None => Err(new_invalid_input_error("missing option 'agent_addr'")),
            }
        } else if same_text(cmd, "dashboard") {
            match self.handle_dashboard_request(cmd, options) {
                Ok(response) => Ok(Step::Reply(response)),
                Err(e) => Err(e),
            }
        } else {
            Ok(Step::Silent)
        }
    }

    /// Reads a request from the text of a frame and decides what to do on
    /// it. The command of the request, once it is known, is appended to
    /// `out_cmd`, so that a failure can be answered under its name.
    pub fn handle_request(&self, json_str: &str, out_cmd: &mut String) -> (result: Result<
        Step,
        ProfilerError,
    >)
        ensures
            match decoded(json_str@) {
                Ok(request) => {
                    &&& step_result_view(result) == step_for(self@, request)
                    &&& final(out_cmd)@ == old(out_cmd)@ + request.cmd
                },
                Err(failure) => {
                    &&& result matches Err(e)
                    &&& e@ == failure
                    &&& final(out_cmd)@ == old(out_cmd)@
                },
            },
    {
        let request = match decode_request(json_str) {
            Ok(request) => request,
            Err(e) => {
                return Err(e);
            },
        };
        out_cmd.append(request.cmd.as_str());
        self.dispatch(&request)
    }

    /// Answers a command that waited for outside work, given the outcome
    /// of that work. Exactly one response comes back, under the command's
    /// name.
    pub fn complete(&mut self, cmd: &str, work: &Pending, outcome: Outcome) -> (response:
        FlareResponse<ResponseData>)
        ensures
            response@ == answer_for(cmd@, completed(old(self)@, cmd@, work@, outcome@).0),
            final(self)@ == completed(old(self)@, cmd@, work@, outcome@).1,
    {
        let result = match (work, outcome) {
            (Pending::ListHistory, Outcome::Listing(listing)) => self.handle_history_samples(
                cmd,
                listing,
            ),
            (Pending::OpenSample { sample_data_dir }, Outcome::Header(bytes)) => match bytes {
                Some(bytes) => self.handle_open_sample(
                    cmd,
                    sample_data_dir.as_str(),
                    Some(bytes.as_slice()),
                ),
                None => self.handle_open_sample(cmd, sample_data_dir.as_str(), None),
            },
            (Pending::ConnectAgent { agent_addr }, Outcome::Handshake(handshake)) => {
                self.handle_connect_agent(cmd, agent_addr.as_str(), handshake)
            },
            _ => Err(ProfilerError::new(ErrorKind::Internal, "unexpected outcome")),
        };
        answer(cmd, result)
    }
}

/// The response that a handler's result is sent as.
pub fn answer(cmd: &str, result: Result<FlareResponse<ResponseData>, ProfilerError>) -> (response:
    FlareResponse<ResponseData>)
    ensures
        response@ == answer_for(cmd@, response_result_view(result)),
{
    match result {
        Ok(response) => response,
        Err(e) => wrap_error_response(cmd, e.message.as_str()),
    }
}

/// Whether `cmd` is one of the commands that are answered with a response.
pub open spec fn is_answered(cmd: Seq<char>) -> bool {
    ||| cmd == "list_sessions"@
    ||| cmd == "history_samples"@
    ||| cmd == "open_sample"@
    ||| cmd == "connect_agent"@
    ||| cmd == "dashboard"@
}

/// A request for one of the answered commands gets one response, and that
/// response names the command: either at once, as a response or as the
/// error response that its failure is sent as, or from `complete`, whatever
/// the outcome of the outside work.
///
/// The other requests: one that names no command fails, and its error
/// response carries the empty name; `attach_jvm` fails without a target and
/// is otherwise not answered; an unknown command is not answered.
pub proof fn lemma_one_answer_per_request(
    profiler: ProfilerView,
    request: RequestView,
    outcome: OutcomeView,
)
    ensures
        match step_for(profiler, request) {
            Ok(StepView::Reply(response)) => response.cmd == request.cmd,
            Ok(StepView::Await(work)) => {
                &&& is_answered(request.cmd)
                &&& answer_for(
                    request.cmd,
                    completed(profiler, request.cmd, work, outcome).0,
                ).cmd == request.cmd
            },
            Ok(StepView::Attach(_)) => request.cmd == "attach_jvm"@,
            Ok(StepView::Silent) => !is_answered(request.cmd) && request.cmd.len() > 0,
            Err(e) => error_response(request.cmd, e.message).cmd == request.cmd,
        },
        is_answered(request.cmd) ==> !(step_for(profiler, request) matches Ok(StepView::Attach(_)))
            && !(step_for(profiler, request) matches Ok(StepView::Silent)),
{
    reveal_strlit("attach_jvm");
    reveal_strlit("connect_agent");
    reveal_strlit("dashboard");
}

/// `open_sample` without a directory, or with an empty one, fails with
/// `InvalidInput`. No outside work is asked for, so no session is made:
/// only `complete` changes the registry.
pub proof fn lemma_open_sample_needs_directory(profiler: ProfilerView, request: RequestView)
    requires
        request.cmd == "open_sample"@,
        request.options.sample_data_dir matches Some(dir) ==> dir.len() == 0,
    ensures
        step_for(profiler, request) == Err::<StepView, ErrorView>(
            invalid_input("missing option 'sample_data_dir'"@),
        ),
{
    reveal_strlit("list_sessions");
    reveal_strlit("history_samples");
    reveal_strlit("open_sample");
}

/// Under an empty directory no sample is opened, whatever bytes are handed
/// in: the answer is the `InvalidInput` failure and the registry stays as
/// it is.
pub proof fn lemma_empty_directory_is_never_opened(
    profiler: ProfilerView,
    cmd: Seq<char>,
    bytes: Option<Seq<u8>>,
)
    ensures
        completed(
            profiler,
            cmd,
            PendingView::OpenSample { sample_data_dir: Seq::empty() },
            OutcomeView::Header(bytes),
        ) == (
            Err::<ResponseView<DataView>, ErrorView>(
                invalid_input("missing option 'sample_data_dir'"@),
            ),
            profiler,
        ),
{
}

/// `dashboard` for an identifier that no session has fails with
/// `NotFound`. The request changes nothing: deciding on a request reads
/// the registry and never writes it.
pub proof fn lemma_dashboard_of_unknown_session(
    profiler: ProfilerView,
    request: RequestView,
    session_id: Seq<char>,
)
    requires
        request.cmd == "dashboard"@,
        request.options.session_id == Some(session_id),
        !profiler.has_session(session_id),
    ensures
        step_for(profiler, request) == Err::<StepView, ErrorView>(
            not_found("sample instance not found"@),
        ),
{
    reveal_strlit("list_sessions");
    reveal_strlit("history_samples");
    reveal_strlit("open_sample");
    reveal_strlit("attach_jvm");
    reveal_strlit("connect_agent");
    reveal_strlit("dashboard");
}

} // verus!
