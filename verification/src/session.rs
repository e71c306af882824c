//! Sample sessions: a live one fed by an agent, or one backed by a sample file.

use vstd::prelude::*;
use crate::timeseries::{TimeSeriesHeader, TimeSeriesStore};

verus! {

/// Which of the two kinds a session is.
#[derive(Clone, Copy, Debug, PartialEq, Eq, Structural)]
pub enum SampleType {
    /// Bound to a remote agent that pushes samples.
    Live,
    /// Bound to a sample file.
    File,
}

impl SampleType {
    /// The name of the kind on the wire.
    pub open spec fn name(self) -> Seq<char> {
        match self {
            SampleType::Live => "attach"@,
            SampleType::File => "file"@,
        }
    }

    /// The name of the kind on the wire: `attach` or `file`.
    pub fn to_string(&self) -> (text: String)
        ensures
            text@ == self.name(),
    {
        match self {
            SampleType::Live => "attach".to_owned(),
            SampleType::File => "file".to_owned(),
        }
    }
}

/// What a session knows of its samples.
#[derive(Clone, Copy, Debug, PartialEq, Eq, Structural)]
pub struct SampleInfo {
    pub sample_type: SampleType,
    /// Time of the first sample, zero while there is none.
    pub begin_time: i64,
    /// For a file, the time just after its last record; for a live session,
    /// the latest sample time seen.
    pub end_time: i64,
    /// Number of samples.
    pub record_count: u64,
    /// Milliseconds between samples of a file; zero for a live session.
    pub interval: i64,
}

/// What the dashboard shows of a session.
#[derive(Clone, Debug, PartialEq, Eq)]
pub struct DashboardInfo {
    pub session_id: String,
    pub sample_info: SampleInfo,
}

/// A `DashboardInfo` as mathematical values.
pub struct DashboardView {
    pub session_id: Seq<char>,
    pub sample_info: SampleInfo,
}

impl View for DashboardInfo {
    type V = DashboardView;

    open spec fn view(&self) -> DashboardView {
        DashboardView { session_id: self.session_id@, sample_info: self.sample_info }
    }
}

/// What a live session has gathered from the events of its agent.
#[derive(Clone, Copy, Debug, PartialEq, Eq, Structural)]
pub struct LiveState {
    /// Number of events seen; it stops counting at `u64::MAX`.
    pub events: u64,
    /// Sample time of the first event seen, zero before any.
    pub first_time: i64,
    /// Greatest sample time seen, zero before any.
    pub last_time: i64,
}

impl LiveState {
    /// The state before any event.
    pub open spec fn initial() -> LiveState {
        LiveState { events: 0, first_time: 0, last_time: 0 }
    }

    /// The state after one more event, sampled at `time`.
    pub open spec fn after(self, time: i64) -> LiveState {
        if self.events == 0 {
            LiveState { events: 1, first_time: time, last_time: time }
        } else {
            LiveState {
                events: if self.events < u64::MAX {
                    (self.events + 1) as u64
                } else {
                    self.events
                },
                first_time: self.first_time,
                last_time: if time > self.last_time {
                    time
                } else {
                    self.last_time
                },
            }
        }
    }

    /// What the state tells of the samples.
    pub open spec fn info(self) -> SampleInfo {
        SampleInfo {
            sample_type: SampleType::Live,
            begin_time: self.first_time,
            end_time: self.last_time,
            record_count: self.events,
            interval: 0,
        }
    }

    /// The state before any event.
    pub fn new() -> (state: LiveState)
        ensures
            state == LiveState::initial(),
    {
        LiveState { events: 0, first_time: 0, last_time: 0 }
    }

    /// Takes in one event, sampled at `time`.
    pub fn record(&mut self, time: i64)
        ensures
            *final(self) == old(self).after(time),
    {
        if self.events == 0 {
            self.events = 1;
            self.first_time = time;
            self.last_time = time;
        } else {
            if self.events < u64::MAX {
                self.events = self.events + 1;
            }
            if time > self.last_time {
                self.last_time = time;
            }
        }
    }
}

/// What a file's header tells of its samples.
pub open spec fn file_info(header: TimeSeriesHeader) -> SampleInfo {
    SampleInfo {
        sample_type: SampleType::File,
        begin_time: header.begin_time,
        end_time: header.end_time() as i64,
        record_count: header.amount,
        interval: header.native_interval,
    }
}

/// A profiling session.
#[derive(Clone, Debug, PartialEq, Eq)]
pub enum SampleSession {
    /// A session fed by the agent at `agent_addr`.
    Live { agent_addr: String, state: LiveState },
    /// A session on the sample file under `dir_path`.
    File { dir_path: String, store: TimeSeriesStore },
}

/// A session as mathematical values.
pub enum SessionView {
    Live { agent_addr: Seq<char>, state: LiveState },
    File { dir_path: Seq<char>, header: TimeSeriesHeader },
}

impl SessionView {
    /// The identifier of the session: the address or the directory it was
    /// made from.
    pub open spec fn id(self) -> Seq<char> {
        match self {
            SessionView::Live { agent_addr, .. } => agent_addr,
            SessionView::File { dir_path, .. } => dir_path,
        }
    }

    pub open spec fn sample_type(self) -> SampleType {
        match self {
            SessionView::Live { .. } => SampleType::Live,
            SessionView::File { .. } => SampleType::File,
        }
    }

    pub open spec fn info(self) -> SampleInfo {
        match self {
            SessionView::Live { state, .. } => state.info(),
            SessionView::File { header, .. } => file_info(header),
        }
    }

    pub open spec fn dashboard(self) -> DashboardView {
        DashboardView { session_id: self.id(), sample_info: self.info() }
    }

    /// The session after an event sampled at `time`: a live session takes it
    /// in, a file session is as before.
    pub open spec fn after_event(self, time: i64) -> SessionView {
        match self {
            SessionView::Live { agent_addr, state } => SessionView::Live {
                agent_addr,
                state: state.after(time),
            },
            SessionView::File { .. } => self,
        }
    }
}

impl View for SampleSession {
    type V = SessionView;

    open spec fn view(&self) -> SessionView {
        match self {
            SampleSession::Live { agent_addr, state } => SessionView::Live {
                agent_addr: agent_addr@,
                state: *state,
            },
            SampleSession::File { dir_path, store } => SessionView::File {
                dir_path: dir_path@,
                header: store.header(),
            },
        }
    }
}

impl SampleSession {
    /// A live session on the agent at `agent_addr`, before any event.
    pub fn live(agent_addr: &str) -> (session: SampleSession)
        ensures
            session@ == (SessionView::Live {
                agent_addr: agent_addr@,
                state: LiveState::initial(),
            }),
    {
        SampleSession::Live { agent_addr: agent_addr.to_owned(), state: LiveState::new() }
    }

    /// A session on the sample file under `dir_path`.
    pub fn file(dir_path: &str, store: TimeSeriesStore) -> (session: SampleSession)
        ensures
            session@ == (SessionView::File { dir_path: dir_path@, header: store.header() }),
    {
        SampleSession::File { dir_path: dir_path.to_owned(), store }
    }

    /// The identifier of the session.
    pub fn session_id(&self) -> (id: &String)
        ensures
            id@ == self@.id(),
    {
        match self {
            SampleSession::Live { agent_addr, .. } => agent_addr,
            SampleSession::File { dir_path, .. } => dir_path,
        }
    }

    /// Which kind the session is.
    pub fn get_sample_type(&self) -> (kind: SampleType)
        ensures
            kind == self@.sample_type(),
    {
        match self {
            SampleSession::Live { .. } => SampleType::Live,
            SampleSession::File { .. } => SampleType::File,
        }
    }

    /// What the session knows of its samples. A live session answers from
    /// the events it has taken in, a file session from its header.
    pub fn get_sample_info(&self) -> (info: SampleInfo)
        ensures
            info == self@.info(),
    {
        match self {
            SampleSession::Live { state, .. } => SampleInfo {
                sample_type: SampleType::Live,
                begin_time: state.first_time,
                end_time: state.last_time,
                record_count: state.events,
                interval: 0,
            },
            SampleSession::File { store, .. } => {
                let header = store.get_header_info();
                assert(header.amount * header.native_interval >= 0) by (nonlinear_arith)
                    requires
                        header.amount >= 0,
                        header.native_interval >= 1,
                ;
                let span: i128 = (header.amount as i128) * (header.native_interval as i128);
                SampleInfo {
                    sample_type: SampleType::File,
                    begin_time: header.begin_time,
                    end_time: (header.begin_time as i128 + span) as i64,
                    record_count: header.amount,
                    interval: header.native_interval,
                }
            },
        }
    }

    /// What the dashboard shows of the session.
    pub fn get_dashboard(&self) -> (info: DashboardInfo)
        ensures
            info@ == self@.dashboard(),
    {
        DashboardInfo {
            session_id: self.session_id().clone(),
            sample_info: self.get_sample_info(),
        }
    }

    /// A copy of the session.
    pub fn clone_session(&self) -> (copy: SampleSession)
        ensures
            copy@ == self@,
    {
        match self {
            SampleSession::Live { agent_addr, state } => SampleSession::Live {
                agent_addr: agent_addr.clone(),
                state: *state,
            },
            SampleSession::File { dir_path, store } => SampleSession::File {
                dir_path: dir_path.clone(),
                store: *store,
            },
        }
    }

    /// The store of a file session.
    pub fn store(&self) -> (store: Option<TimeSeriesStore>)
        ensures
            match self@ {
                SessionView::Live { .. } => store.is_none(),
                SessionView::File { header, .. } => store.is_some() && store.unwrap().header()
                    == header,
            },
    {
        match self {
            SampleSession::Live { .. } => None,
            SampleSession::File { store, .. } => Some(*store),
        }
    }

    /// Takes in an event that the agent pushed, sampled at `time`. Only a
    /// live session has an agent: a file session stays as it is.
    pub fn on_sample_event(&mut self, time: i64)
        ensures
            final(self)@ == old(self)@.after_event(time),
    {
        match self {
            SampleSession::Live { state, .. } => {
                state.record(time);
            },
            SampleSession::File { .. } => {},
        }
    }
}

} // verus!
