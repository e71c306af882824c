//! The coordinator: the registry of sessions and the server's liveness flag.

use vstd::prelude::*;
use crate::protocol::{
    invalid_input,
    not_found,
    store_failure,
    EntryView,
    ErrorKind,
    ErrorView,
    ProfilerError,
    SessionEntry,
    entry_views,
};
use crate::session::{
    DashboardInfo,
    LiveState,
    SampleInfo,
    SampleSession,
    SessionView,
};
use crate::timeseries::{header_of, StoreError, TimeSeriesHeader, TimeSeriesStore};

verus! {

/// The coordinator as mathematical values: the sessions in the order in
/// which their identifiers were first registered.
pub struct ProfilerView {
    pub bind_addr: Seq<char>,
    pub running: bool,
    pub sessions: Seq<SessionView>,
}

impl ProfilerView {
    /// No two sessions have the same identifier.
    pub open spec fn distinct(self) -> bool {
        forall|i: int, j: int|
            0 <= i < j < self.sessions.len() ==> (#[trigger] self.sessions[i]).id() != (
            #[trigger] self.sessions[j]).id()
    }

    /// Whether a session is registered under `id`.
    pub open spec fn has_session(self, id: Seq<char>) -> bool {
        exists|i: int| 0 <= i < self.sessions.len() && (#[trigger] self.sessions[i]).id() == id
    }

    /// The position of the session registered under `id`.
    pub open spec fn index_of(self, id: Seq<char>) -> int {
        choose|i: int| 0 <= i < self.sessions.len() && (#[trigger] self.sessions[i]).id() == id
    }

    /// The session registered under `id`.
    pub open spec fn session(self, id: Seq<char>) -> SessionView {
        self.sessions[self.index_of(id)]
    }

    /// The registry after `session` has been registered: it takes the place
    /// of the session with its identifier, or comes last if there is none.
    pub open spec fn with_session(self, session: SessionView) -> ProfilerView {
        ProfilerView {
            sessions: if self.has_session(session.id()) {
                self.sessions.update(self.index_of(session.id()), session)
            } else {
                self.sessions.push(session)
            },
            ..self
        }
    }

    /// The registry after the session under `id` has taken in an event
    /// sampled at `time`; as before if there is no such session.
    pub open spec fn after_event(self, id: Seq<char>, time: i64) -> ProfilerView {
        ProfilerView {
            sessions: if self.has_session(id) {
                self.sessions.update(self.index_of(id), self.session(id).after_event(time))
            } else {
                self.sessions
            },
            ..self
        }
    }

    /// The listing of the sessions: one entry each, in order.
    pub open spec fn entries(self) -> Seq<EntryView> {
        Seq::new(
            self.sessions.len(),
            |i: int|
                EntryView {
                    session_id: self.sessions[i].id(),
                    sample_type: self.sessions[i].sample_type(),
                },
        )
    }
}

impl ProfilerView {
    /// Where identifiers are distinct, the session at position `i` is the
    /// one registered under its identifier.
    pub proof fn lemma_position(self, i: int)
        requires
            self.distinct(),
            0 <= i < self.sessions.len(),
        ensures
            self.has_session(self.sessions[i].id()),
            self.index_of(self.sessions[i].id()) == i,
            self.session(self.sessions[i].id()) == self.sessions[i],
    {
        let id = self.sessions[i].id();
        let chosen = self.index_of(id);
        assert(0 <= chosen < self.sessions.len() && self.sessions[chosen].id() == id);
        if chosen < i {
            assert(self.sessions[chosen].id() != self.sessions[i].id());
        } else if i < chosen {
            assert(self.sessions[i].id() != self.sessions[chosen].id());
        }
    }

    /// Registering a session keeps identifiers distinct, leaves every
    /// other session where and as it was, and makes the new session the
    /// one registered under its identifier. A session whose identifier is
    /// new comes last.
    pub proof fn lemma_with_session(self, session: SessionView)
        requires
            self.distinct(),
        ensures
            self.with_session(session).distinct(),
            self.with_session(session).bind_addr == self.bind_addr,
            self.with_session(session).running == self.running,
            self.with_session(session).has_session(session.id()),
            self.with_session(session).session(session.id()) == session,
            self.with_session(session).sessions.len() == if self.has_session(session.id()) {
                self.sessions.len()
            } else {
                self.sessions.len() + 1
            },
            forall|i: int|
                0 <= i < self.sessions.len() ==> (#[trigger] self.with_session(
                    session,
                ).sessions[i]).id() == self.sessions[i].id(),
            forall|id: Seq<char>|
                id != session.id() ==> (#[trigger] self.with_session(session).has_session(id)
                    <==> self.has_session(id)),
            forall|id: Seq<char>|
                id != session.id() && self.has_session(id) ==> #[trigger] self.with_session(
                    session,
                ).session(id) == self.session(id),
    {
        let after = self.with_session(session);
        let at = if self.has_session(session.id()) {
            self.index_of(session.id())
        } else {
            self.sessions.len() as int
        };
        assert(0 <= at < after.sessions.len() && after.sessions[at] == session);
        assert forall|i: int| 0 <= i < self.sessions.len() implies (#[trigger] after.sessions[i]).id()
            == self.sessions[i].id() by {
            if i != at {
                assert(after.sessions[i] == self.sessions[i]);
            }
        }
        assert forall|i: int, j: int| 0 <= i < j < after.sessions.len() implies (
        #[trigger] after.sessions[i]).id() != (#[trigger] after.sessions[j]).id() by {
            if j < self.sessions.len() {
                assert(self.sessions[i].id() != self.sessions[j].id());
            } else {
                assert(at == j);
                assert(after.sessions[i] == self.sessions[i]);
                if self.sessions[i].id() == session.id() {
                    assert(self.has_session(session.id()));
                }
            }
        }
        after.lemma_position(at);
        assert forall|id: Seq<char>| id != session.id() implies (#[trigger] after.has_session(id)
            <==> self.has_session(id)) by {
            if self.has_session(id) {
                let i = self.index_of(id);
                assert(after.sessions[i].id() == id);
            }
            if after.has_session(id) {
                let i = after.index_of(id);
                assert(i != at);
                assert(self.sessions[i].id() == id);
            }
        }
        assert forall|id: Seq<char>| id != session.id() && self.has_session(id) implies (
        #[trigger] after.session(id)) == self.session(id) by {
            let i = self.index_of(id);
            assert(after.sessions[i] == self.sessions[i]);
            after.lemma_position(i);
        }
    }

    /// The registry after the sessions of `created` have been registered
    /// one after the other.
    pub open spec fn with_sessions(self, created: Seq<SessionView>) -> ProfilerView
        decreases created.len(),
    {
        if created.len() == 0 {
            self
        } else {
            self.with_sessions(created.drop_last()).with_session(created.last())
        }
    }

    /// The registry holds exactly the sessions that were registered: an
    /// identifier has a session when it had one before or a session was
    /// registered under it, and that session is the last one registered
    /// under it. The sessions that were there before keep their positions,
    /// so a listing never reorders.
    pub proof fn lemma_with_sessions(self, created: Seq<SessionView>)
        requires
            self.distinct(),
        ensures
            self.with_sessions(created).distinct(),
            self.with_sessions(created).sessions.len() >= self.sessions.len(),
            forall|i: int|
                0 <= i < self.sessions.len() ==> (#[trigger] self.with_sessions(
                    created,
                ).sessions[i]).id() == self.sessions[i].id(),
            forall|id: Seq<char>| #[trigger]
                self.with_sessions(created).has_session(id) <==> (self.has_session(id) || exists|
                    k: int,
                |
                    0 <= k < created.len() && (#[trigger] created[k]).id() == id),
            forall|k: int|
                0 <= k < created.len() && (forall|l: int|
                    k < l < created.len() ==> (#[trigger] created[l]).id() != created[k].id())
                    ==> self.with_sessions(created).session((#[trigger] created[k]).id())
                    == created[k],
        decreases created.len(),
    {
        if created.len() > 0 {
            let earlier = created.drop_last();
            let last = created.last();
            let before = self.with_sessions(earlier);
            let after = self.with_sessions(created);
            self.lemma_with_sessions(earlier);
            before.lemma_with_session(last);
            assert forall|i: int| 0 <= i < self.sessions.len() implies (#[trigger] after.sessions[i]).id()
                == self.sessions[i].id() by {
                assert(before.sessions[i].id() == self.sessions[i].id());
            }
            assert forall|id: Seq<char>| #[trigger]
                after.has_session(id) <==> (self.has_session(id) || exists|k: int|
                    0 <= k < created.len() && (#[trigger] created[k]).id() == id) by {
                if id == last.id() {
                    assert(created[created.len() - 1].id() == id);
                } else {
                    assert(after.has_session(id) <==> before.has_session(id));
                    if before.has_session(id) && !self.has_session(id) {
                        let k = choose|k: int|
                            0 <= k < earlier.len() && (#[trigger] earlier[k]).id() == id;
                        assert(created[k].id() == id);
                    }
                    if exists|k: int| 0 <= k < created.len() && (#[trigger] created[k]).id() == id {
                        let k = choose|k: int|
                            0 <= k < created.len() && (#[trigger] created[k]).id() == id;
                        assert(earlier[k].id() == id);
                    }
                }
            }
            assert forall|k: int|
                0 <= k < created.len() && (forall|l: int|
                    k < l < created.len() ==> (#[trigger] created[l]).id() != created[k].id())
                    implies after.session((#[trigger] created[k]).id()) == created[k] by {
                if k < created.len() - 1 {
                    assert(created[created.len() - 1].id() != created[k].id());
                    assert(earlier[k] == created[k]);
                    assert forall|l: int| k < l < earlier.len() implies (#[trigger] earlier[l]).id()
                        != earlier[k].id() by {
                        assert(created[l].id() != created[k].id());
                    }
                    assert(before.session(earlier[k].id()) == earlier[k]);
                    assert(before.has_session(earlier[k].id()));
                    assert(after.session(created[k].id()) == before.session(created[k].id()));
                }
            }
        }
    }
}

/// What opening a sample file gives, from the bytes at its start: its
/// header, or nothing when the file could not be read or does not start
/// with a valid header.
pub open spec fn opened_header(header_bytes: Option<&[u8]>) -> Option<TimeSeriesHeader> {
    match header_bytes {
        Some(bytes) => header_of(bytes@),
        None => None,
    }
}

/// The coordinator. It owns the sessions, each under its identifier.
pub struct Profiler {
    bind_addr: String,
    running: bool,
    sessions: Vec<SampleSession>,
}

impl View for Profiler {
    type V = ProfilerView;

    closed spec fn view(&self) -> ProfilerView {
        ProfilerView {
            bind_addr: self.bind_addr@,
            running: self.running,
            sessions: Seq::new(self.sessions@.len(), |i: int| self.sessions@[i]@),
        }
    }
}

impl Profiler {
    #[verifier::type_invariant]
    spec fn identifiers_are_distinct(self) -> bool {
        self@.distinct()
    }

    /// A coordinator that is running, has no session, and serves on
    /// `bind_addr`.
    pub fn with_bind_addr(bind_addr: &str) -> (profiler: Profiler)
        ensures
            profiler@ == (ProfilerView {
                bind_addr: bind_addr@,
                running: true,
                sessions: Seq::empty(),
            }),
    {
        let profiler = Profiler {
            bind_addr: bind_addr.to_owned(),
            running: true,
            sessions: Vec::new(),
        };
        assert(profiler@.sessions =~= Seq::empty());
        profiler
    }

    /// A coordinator that is running, has no session, and serves on
    /// `0.0.0.0:3344`.
    pub fn new() -> (profiler: Profiler)
        ensures
            profiler@ == (ProfilerView {
                bind_addr: "0.0.0.0:3344"@,
                running: true,
                sessions: Seq::empty(),
            }),
    {
        Profiler::with_bind_addr("0.0.0.0:3344")
    }

    /// The position of the session registered under `id`.
    fn find(&self, id: &String) -> (found: Option<usize>)
        ensures
            match found {
                Some(i) => self@.has_session(id@) && self@.index_of(id@) == i && i
                    < self.sessions@.len(),
                None => !self@.has_session(id@),
            },
    {
        proof {
            use_type_invariant(self);
        }
        let mut i: usize = 0;
        while i < self.sessions.len()
            invariant
                self@.distinct(),
                i <= self.sessions@.len(),
                forall|j: int| 0 <= j < i ==> (#[trigger] self@.sessions[j]).id() != id@,
            decreases self.sessions@.len() - i,
        {
            if *self.sessions[i].session_id() == *id {
                proof {
                    self@.lemma_position(i as int);
                }
                return Some(i);
            }
            i = i + 1;
        }
        None
    }

    /// Puts `session` at position `at`: in place of the session there, or
    /// last when `at` is the number of sessions.
    fn place(&mut self, at: usize, session: SampleSession)
        requires
            at <= old(self)@.sessions.len(),
            forall|j: int|
                0 <= j < old(self)@.sessions.len() && j != at ==> (
                #[trigger] old(self)@.sessions[j]).id() != session@.id(),
        ensures
            final(self)@ == (ProfilerView {
                sessions: if at < old(self)@.sessions.len() {
                    old(self)@.sessions.update(at as int, session@)
                } else {
                    old(self)@.sessions.push(session@)
                },
                ..old(self)@
            }),
    {
        proof {
            use_type_invariant(&*self);
        }
        let ghost before = self@;
        let mut sessions: Vec<SampleSession> = Vec::new();
        std::mem::swap(&mut self.sessions, &mut sessions);
        if at < sessions.len() {
            sessions.set(at, session);
        } else {
            sessions.push(session);
        }
        let ghost after = if at < before.sessions.len() {
            before.sessions.update(at as int, session@)
        } else {
            before.sessions.push(session@)
        };
        assert(Seq::new(sessions@.len(), |i: int| sessions@[i]@) =~= after);
        std::mem::swap(&mut self.sessions, &mut sessions);
        assert(self@.sessions =~= after);
    }

    /// Registers `session` under its identifier.
    fn register(&mut self, session: SampleSession)
        ensures
            final(self)@ == old(self)@.with_session(session@),
    {
        proof {
            use_type_invariant(&*self);
        }
        let found = self.find(session.session_id());
        match found {
            Some(i) => {
                self.place(i, session);
            },
            None => {
                let end: usize = self.sessions.len();
                self.place(end, session);
            },
        }
    }

    /// Registers a live session on the agent at `agent_addr`, once the link
    /// to the agent has been made and its events subscribed to.
    ///
    /// `handshake` tells how that went. When it failed, the command fails
    /// with its message and no session is registered.
    pub fn connect_agent(&mut self, agent_addr: &str, handshake: Result<(), String>) -> (result:
        Result<String, ProfilerError>)
        ensures
            match handshake {
                Ok(_) => {
                    &&& result matches Ok(id)
                    &&& id@ == agent_addr@
                    &&& final(self)@ == old(self)@.with_session(
                        SessionView::Live { agent_addr: agent_addr@, state: LiveState::initial() },
                    )
                },
                Err(message) => {
                    &&& result matches Err(e)
                    &&& e@ == (ErrorView { kind: ErrorKind::Io, message: message@ })
                    &&& final(self)@ == old(self)@
                },
            },
    {
        match handshake {
            Ok(_) => {
                self.register(SampleSession::live(agent_addr));
                Ok(agent_addr.to_owned())
            },
            Err(message) => Err(ProfilerError { kind: ErrorKind::Io, message }),
        }
    }

    /// Registers a session on the sample file under `sample_data_dir`.
    ///
    /// `header_bytes` holds the first bytes of that file, at least
    /// `HEADER_SIZE` of them, or nothing if the file could not be read.
    pub fn open_sample(&mut self, sample_data_dir: &str, header_bytes: Option<&[u8]>) -> (result:
        Result<String, ProfilerError>)
        ensures
            match opened_header(header_bytes) {
                Some(header) => {
                    &&& result matches Ok(id)
                    &&& id@ == sample_data_dir@
                    &&& final(self)@ == old(self)@.with_session(
                        SessionView::File { dir_path: sample_data_dir@, header },
                    )
                },
                None => {
                    &&& result matches Err(e)
                    &&& e@ == store_failure(StoreError::NotFound)
                    &&& final(self)@ == old(self)@
                },
            },
    {
        let bytes = match header_bytes {
            Some(bytes) => bytes,
            None => {
                return Err(ProfilerError::from_store(StoreError::NotFound));
            },
        };
        match TimeSeriesStore::open(bytes) {
            Ok(store) => {
                self.register(SampleSession::file(sample_data_dir, store));
                Ok(sample_data_dir.to_owned())
            },
            Err(e) => Err(ProfilerError::from_store(e)),
        }
    }

    /// The dashboard of the session under `session_id`.
    pub fn get_dashboard(&self, session_id: &str) -> (result: Result<DashboardInfo, ProfilerError>)
        ensures
            match result {
                Ok(info) => self@.has_session(session_id@) && info@ == self@.session(
                    session_id@,
                ).dashboard(),
                Err(e) => !self@.has_session(session_id@) && e@ == not_found(
                    "sample instance not found"@,
                ),
            },
    {
        match self.find(&session_id.to_owned()) {
            Some(i) => Ok(self.sessions[i].get_dashboard()),
            None => Err(ProfilerError::new(ErrorKind::NotFound, "sample instance not found")),
        }
    }

    /// What the session under `session_id` knows of its samples.
    pub fn get_sample_info(&self, session_id: &str) -> (result: Result<SampleInfo, ProfilerError>)
        ensures
            match result {
                Ok(info) => self@.has_session(session_id@) && info == self@.session(
                    session_id@,
                ).info(),
                Err(e) => !self@.has_session(session_id@) && e@ == not_found(
                    "sample instance not found"@,
                ),
            },
    {
        match self.find(&session_id.to_owned()) {
            Some(i) => Ok(self.sessions[i].get_sample_info()),
            None => Err(ProfilerError::new(ErrorKind::NotFound, "sample instance not found")),
        }
    }

    /// The store of the file session under `session_id`: what a range
    /// query on the session is planned and answered with.
    pub fn get_store(&self, session_id: &str) -> (result: Result<TimeSeriesStore, ProfilerError>)
        ensures
            match result {
                Ok(store) => {
                    &&& self@.has_session(session_id@)
                    &&& self@.session(session_id@) matches SessionView::File { header, .. }
                    &&& store.header() == header
                },
                Err(e) => if self@.has_session(session_id@) {
                    &&& self@.session(session_id@) is Live
                    &&& e@ == invalid_input("session has no sample file"@)
                } else {
                    e@ == not_found("sample instance not found"@)
                },
            },
    {
        match self.find(&session_id.to_owned()) {
            Some(i) => match self.sessions[i].store() {
                Some(store) => Ok(store),
                None => Err(
                    ProfilerError::new(ErrorKind::InvalidInput, "session has no sample file"),
                ),
            },
            None => Err(ProfilerError::new(ErrorKind::NotFound, "sample instance not found")),
        }
    }

    /// The open sessions, in the order in which their identifiers were
    /// first registered. No two of them have the same identifier.
    pub fn list_sessions(&self) -> (entries: Vec<SessionEntry>)
        ensures
            entries@.len() == self@.sessions.len(),
            entry_views(entries@) == self@.entries(),
            self@.distinct(),
    {
        proof {
            use_type_invariant(self);
        }
        let mut entries: Vec<SessionEntry> = Vec::new();
        let mut i: usize = 0;
        while i < self.sessions.len()
            invariant
                i <= self.sessions@.len(),
                entries@.len() == i,
                forall|j: int|
                    0 <= j < i ==> (#[trigger] entries@[j])@ == (EntryView {
                        session_id: self@.sessions[j].id(),
                        sample_type: self@.sessions[j].sample_type(),
                    }),
            decreases self.sessions@.len() - i,
        {
            let session = &self.sessions[i];
            entries.push(
                SessionEntry {
                    session_id: session.session_id().clone(),
                    sample_type: session.get_sample_type(),
                },
            );
            i = i + 1;
        }
        assert(entry_views(entries@) =~= self@.entries());
        entries
    }

    /// Hands an event that an agent pushed, sampled at `time`, to the
    /// session under `session_id`. Tells whether there is such a session.
    pub fn on_sample_event(&mut self, session_id: &str, time: i64) -> (known: bool)
        ensures
            known == old(self)@.has_session(session_id@),
            final(self)@ == old(self)@.after_event(session_id@, time),
    {
        match self.find(&session_id.to_owned()) {
            Some(i) => {
                proof {
                    use_type_invariant(&*self);
                }
                let mut session = self.sessions[i].clone_session();
                session.on_sample_event(time);
                self.place(i, session);
                true
            },
            None => false,
        }
    }

    /// The address that the server is to listen on.
    pub fn startup(&self) -> (bind_addr: String)
        ensures
            bind_addr@ == self@.bind_addr,
    {
        self.bind_addr.clone()
    }

    /// Asks the server to stop accepting connections.
    pub fn shutdown(&mut self)
        ensures
            final(self)@ == (ProfilerView { running: false, ..old(self)@ }),
    {
        proof {
            use_type_invariant(&*self);
        }
        self.running = false;
    }

    /// Whether the server is to go on accepting connections.
    pub fn is_running(&self) -> (running: bool)
        ensures
            running == self@.running,
    {
        self.running
    }
}

} // verus!
