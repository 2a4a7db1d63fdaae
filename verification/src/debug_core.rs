//! The debug core: one value holding the session registry, the
//! breakpoint catalog, the per-session execution state, and the
//! per-session event buffer.
//!
//! Every operation is a plain call from state and arguments to a new
//! state and a result. Where the original system talks to the runtime
//! bridge in the middle of an operation, the call here takes the
//! bridge's answer as an argument (an attach outcome, an installation
//! flag) or returns the intent the service layer must forward; the
//! blocking wait loop and the stream pump around the cursor reads live
//! with the transport, outside this crate.

use vstd::prelude::*;

use crate::breakpoints::Breakpoint;
use crate::breakpoints::BpLocation;
use crate::breakpoints::ExceptionBreakpoint;
use crate::breakpoints::bp_ids_unique;
use crate::buffer::EventBuffer;
use crate::buffer::EventInfo;
use crate::errors::ErrorKind;
use crate::events::DebugEvent;
use crate::events::EventDetails;
use crate::events::EventKind;
use crate::events::SourceLocation;
use crate::sessions::ConnState;
use crate::sessions::Session;
use crate::sessions::TargetDesc;
use crate::sessions::fresh_session_id;
use crate::threads::StepDepth;
use crate::threads::StepRequest;
use crate::threads::StepSize;
use crate::threads::ThreadInfo;
use crate::threads::ThreadStatus;

verus! {

/// A long-lived read cursor on one session's events, backing a
/// server-streaming subscription.
#[derive(Debug)]
pub struct Subscription {
    pub session_id: String,
    /// The sequence number of the next event to deliver.
    pub cursor: u64,
}

/// What the runtime bridge reported back for an attach request.
#[derive(Debug)]
pub enum AttachOutcome {
    /// The bridge confirmed attachment and handed over the runtime
    /// metadata.
    Confirmed { vm_name: String, vm_version: String },
    /// The deadline elapsed before the bridge confirmed.
    TimedOut,
    /// The bridge could not attach at all.
    Failed,
}

/// Everything the core holds for one session.
#[derive(Debug)]
pub struct SessionState {
    pub session: Session,
    pub threads: Vec<ThreadInfo>,
    pub selected_thread: Option<i64>,
    pub selected_frame: i32,
    pub pending_step: Option<StepRequest>,
    pub events: EventBuffer,
}

impl SessionState {
    /// Threads are well-formed with unique ids, and the event buffer
    /// is well-formed.
    pub open spec fn wf(self) -> bool {
        &&& forall|k: int| 0 <= k < self.threads@.len() ==> (#[trigger] self.threads@[k]).wf()
        &&& forall|k: int, l: int|
            0 <= k < l < self.threads@.len() ==> self.threads@[k].id != self.threads@[l].id
        &&& self.events@.wf()
    }
}

/// No two sessions share an id.
pub open spec fn session_ids_unique(ss: Seq<SessionState>) -> bool {
    forall|i: int, j: int| 0 <= i < j < ss.len() ==> ss[i].session.id@ != ss[j].session.id@
}

/// The multi-session debug core.
#[derive(Debug)]
pub struct DebugCore {
    pub sessions: Vec<SessionState>,
    /// The id of the active session, used when a caller omits one.
    pub active: Option<String>,
    pub breakpoints: Vec<Breakpoint>,
    pub exception_breakpoints: Vec<ExceptionBreakpoint>,
    /// Breakpoint ids count up and are never reused.
    pub next_bp_id: u64,
    /// Exception-breakpoint ids count up and are never reused.
    pub next_ex_id: u64,
    /// Counts attaches, to base generated session ids on.
    pub attach_counter: u64,
    /// The event-buffer capacity given to new sessions.
    pub event_capacity: usize,
}

impl DebugCore {
    /// Well-formedness of the whole core.
    pub open spec fn wf(self) -> bool {
        &&& session_ids_unique(self.sessions@)
        &&& forall|i: int| 0 <= i < self.sessions@.len() ==> (#[trigger] self.sessions@[i]).wf()
        &&& match self.active {
            Some(a) => self.has_session(a@),
            None => true,
        }
        &&& bp_ids_unique(self.breakpoints@)
        &&& forall|i: int|
            0 <= i < self.breakpoints@.len() ==> (#[trigger] self.breakpoints@[i]).id
                < self.next_bp_id
        &&& forall|i: int, j: int|
            0 <= i < j < self.exception_breakpoints@.len()
                ==> self.exception_breakpoints@[i].id != self.exception_breakpoints@[j].id
        &&& forall|i: int|
            0 <= i < self.exception_breakpoints@.len()
                ==> (#[trigger] self.exception_breakpoints@[i]).id < self.next_ex_id
        &&& self.event_capacity >= 1
    }

    /// Whether a session with the given id is registered.
    pub open spec fn has_session(self, sid: Seq<char>) -> bool {
        exists|i: int| 0 <= i < self.sessions@.len() && self.sessions@[i].session.id@ == sid
    }

    /// The registry position of the session with the given id.
    pub open spec fn session_index_of(self, sid: Seq<char>) -> int {
        choose|i: int| 0 <= i < self.sessions@.len() && self.sessions@[i].session.id@ == sid
    }

    /// With unique session ids, the position a search found is the
    /// position the spec names.
    pub proof fn lemma_session_index_found(self, j: int)
        requires
            session_ids_unique(self.sessions@),
            0 <= j < self.sessions@.len(),
        ensures
            self.session_index_of(self.sessions@[j].session.id@) == j,
    {
        let sid = self.sessions@[j].session.id@;
        let w = self.session_index_of(sid);
        assert(self.has_session(sid));
        assert(0 <= w < self.sessions@.len() && self.sessions@[w].session.id@ == sid);
        if w != j {
            assert(self.sessions@[w].session.id@ != sid);
        }
    }

    /// The id of the active session, if one is active.
    pub open spec fn active_id(self) -> Option<Seq<char>> {
        match self.active {
            Some(a) => Some(a@),
            None => None,
        }
    }

    /// What an optional session id resolves to: a given non-empty id
    /// stands for itself; an omitted or empty one stands for the
    /// active session, if any.
    pub open spec fn spec_resolved(self, requested: Option<String>) -> Option<Seq<char>> {
        match requested {
            Some(s) => if s@.len() > 0 {
                Some(s@)
            } else {
                self.active_id()
            },
            None => self.active_id(),
        }
    }

    /// An empty core with the given event-buffer capacity for its
    /// sessions.
    pub fn new(event_capacity: usize) -> (core: DebugCore)
        requires
            event_capacity >= 1,
        ensures
            core.wf(),
            core.sessions@.len() == 0,
            core.active.is_none(),
            core.breakpoints@.len() == 0,
            core.exception_breakpoints@.len() == 0,
            core.next_bp_id == 0,
            core.next_ex_id == 0,
            core.event_capacity == event_capacity,
    {
        DebugCore {
            sessions: Vec::new(),
            active: None,
            breakpoints: Vec::new(),
            exception_breakpoints: Vec::new(),
            next_bp_id: 0,
            next_ex_id: 0,
            attach_counter: 0,
            event_capacity,
        }
    }

    /// Find the registry position of a session id.
    pub fn find_session(&self, sid: &String) -> (r: Option<usize>)
        ensures
            match r {
                Some(i) => i < self.sessions@.len() && self.sessions@[i as int].session.id@
                    == sid@,
                None => !self.has_session(sid@),
            },
    {
        let mut i: usize = 0;
        while i < self.sessions.len()
            invariant
                i <= self.sessions@.len(),
                forall|j: int| 0 <= j < i ==> self.sessions@[j].session.id@ != sid@,
            decreases self.sessions@.len() - i,
        {
            if self.sessions[i].session.id == *sid {
                return Some(i);
            }
            i = i + 1;
        }
        None
    }

    /// Resolve an optional session id: a given non-empty id stands for
    /// itself, an omitted or empty one for the active session; with no
    /// active session that fails.
    pub fn resolve_session_id(&self, requested: &Option<String>) -> (r: Result<String, ErrorKind>)
        ensures
            match r {
                Ok(sid) => self.spec_resolved(*requested) == Some(sid@),
                Err(k) => k == ErrorKind::NoActiveSession && self.spec_resolved(*requested).is_none(),
            },
    {
        match requested {
            Some(s) => {
                if !s.as_str().is_empty() {
                    return Ok(s.clone());
                }
                match &self.active {
                    Some(a) => Ok(a.clone()),
                    None => Err(ErrorKind::NoActiveSession),
                }
            },
            None => {
                match &self.active {
                    Some(a) => Ok(a.clone()),
                    None => Err(ErrorKind::NoActiveSession),
                }
            },
        }
    }

    /// The ids of all registered sessions, in registry order.
    pub fn session_ids(&self) -> (r: Vec<String>)
        ensures
            r@.len() == self.sessions@.len(),
            forall|i: int| 0 <= i < r@.len() ==> r@[i]@ == self.sessions@[i].session.id@,
    {
        let mut r: Vec<String> = Vec::new();
        let mut i: usize = 0;
        while i < self.sessions.len()
            invariant
                i <= self.sessions@.len(),
                r@.len() == i,
                forall|j: int| 0 <= j < i ==> r@[j]@ == self.sessions@[j].session.id@,
            decreases self.sessions@.len() - i,
        {
            r.push(self.sessions[i].session.id.clone());
            i = i + 1;
        }
        r
    }

    /// Generate a session id that no registered session uses, bumping
    /// the attach counter it is based on.
    fn generate_session_id(&mut self) -> (r: String)
        ensures
            final(self).sessions == old(self).sessions,
            final(self).active == old(self).active,
            final(self).breakpoints == old(self).breakpoints,
            final(self).exception_breakpoints == old(self).exception_breakpoints,
            final(self).next_bp_id == old(self).next_bp_id,
            final(self).next_ex_id == old(self).next_ex_id,
            final(self).event_capacity == old(self).event_capacity,
            !old(self).has_session(r@),
    {
        let ids = self.session_ids();
        let generated = fresh_session_id(&ids, self.attach_counter);
        if self.attach_counter < u64::MAX {
            self.attach_counter = self.attach_counter + 1;
        }
        proof {
            assert forall|i: int|
                0 <= i < old(self).sessions@.len() implies old(
                self,
            ).sessions@[i].session.id@ != generated@ by {
                assert(ids@[i]@ == old(self).sessions@[i].session.id@);
                assert(generated@ != ids@[i]@);
            }
        }
        generated
    }

    /// Reserve a session id and register the placeholder session the
    /// bridge is now attaching. A requested id that is already in use
    /// fails with `AlreadyExists`; an omitted id gets a fresh generated
    /// one. On success the returned id is registered in `Connecting`
    /// state and everything else is untouched.
    pub fn begin_attach(&mut self, requested_id: &Option<String>, target: &TargetDesc) -> (r:
        Result<String, ErrorKind>)
        requires
            old(self).wf(),
        ensures
            final(self).wf(),
            match r {
                Ok(sid) => {
                    &&& !old(self).has_session(sid@)
                    &&& (match requested_id {
                        Some(s) => s@.len() > 0 ==> sid@ == s@,
                        None => true,
                    })
                    &&& final(self).sessions@.len() == old(self).sessions@.len() + 1
                    &&& final(self).sessions@.last().session.id@ == sid@
                    &&& final(self).sessions@.last().session.state == ConnState::Connecting
                    &&& final(self).sessions@.last().session.target == *target
                    &&& final(self).sessions@.last().threads@.len() == 0
                    &&& final(self).sessions@.last().events@.events.len() == 0
                    &&& final(self).sessions@.drop_last() == old(self).sessions@
                    &&& final(self).active == old(self).active
                    &&& final(self).breakpoints == old(self).breakpoints
                    &&& final(self).exception_breakpoints == old(self).exception_breakpoints
                    &&& final(self).has_session(sid@)
                },
                Err(k) => {
                    &&& *final(self) == *old(self)
                    &&& k == ErrorKind::AlreadyExists
                    &&& (match requested_id {
                        Some(s) => s@.len() > 0 && old(self).has_session(s@),
                        None => false,
                    })
                },
            },
    {
        let id: String = match requested_id {
            Some(s) => {
                if !s.as_str().is_empty() {
                    if self.find_session(s).is_some() {
                        return Err(ErrorKind::AlreadyExists);
                    }
                    s.clone()
                } else {
                    self.generate_session_id()
                }
            },
            None => { self.generate_session_id() },
        };
        proof {
            assert(!old(self).has_session(id@));
        }
        let st = SessionState {
            session: Session {
                id: id.clone(),
                target: target.clone(),
                state: ConnState::Connecting,
                vm_name: "".to_owned(),
                vm_version: "".to_owned(),
            },
            threads: Vec::new(),
            selected_thread: None,
            selected_frame: 0,
            pending_step: None,
            events: EventBuffer::new(self.event_capacity),
        };
        self.sessions.push(st);
        proof {
            assert(self.sessions@.drop_last() =~= old(self).sessions@);
        }
        Ok(id)
    }
    /// Complete an attach begun earlier, with what the bridge
    /// reported. Confirmation turns the reserved session `Attached`,
    /// records the runtime metadata, and makes it active if no session
    /// is; the first successful attach therefore becomes active.
    /// A timeout or failure drops the reserved session: nothing is
    /// retained.
    pub fn finish_attach(&mut self, id: &String, outcome: &AttachOutcome) -> (r: Result<
        Session,
        ErrorKind,
    >)
        requires
            old(self).wf(),
        ensures
            final(self).wf(),
            match r {
                Ok(s) => {
                    let i = old(self).session_index_of(id@);
                    &&& old(self).has_session(id@)
                    &&& outcome matches AttachOutcome::Confirmed { vm_name, vm_version }
                    &&& s == final(self).sessions@[i].session
                    &&& s.id@ == id@
                    &&& s.state == ConnState::Attached
                    &&& (outcome matches AttachOutcome::Confirmed { vm_name, vm_version } ==> s.vm_name@ == vm_name@
                        && s.vm_version@ == vm_version@)
                    &&& final(self).sessions@ == old(self).sessions@.update(
                        i,
                        SessionState {
                            session: s,
                            ..old(self).sessions@[i]
                        },
                    )
                    &&& (old(self).active.is_some() ==> final(self).active == old(self).active)
                    &&& (old(self).active.is_none() ==> final(self).active_id() == Some(id@))
                    &&& final(self).breakpoints == old(self).breakpoints
                    &&& final(self).exception_breakpoints == old(self).exception_breakpoints
                },
                Err(k) => {
                    if !old(self).has_session(id@) {
                        k == ErrorKind::NotFound && *final(self) == *old(self)
                    } else {
                        let i = old(self).session_index_of(id@);
                        &&& (match outcome {
                            AttachOutcome::Confirmed { .. } => false,
                            AttachOutcome::TimedOut => k == ErrorKind::Timeout,
                            AttachOutcome::Failed => k == ErrorKind::BridgeUnavailable,
                        })
                        &&& final(self).sessions@ == old(self).sessions@.remove(i)
                        &&& !final(self).has_session(id@)
                        &&& final(self).active == spec_active_after_removal(old(self).active, id@)
                        &&& final(self).breakpoints == old(self).breakpoints
                        &&& final(self).exception_breakpoints == old(self).exception_breakpoints
                    }
                },
            },
    {
        let found = self.find_session(id);
        match found {
            None => Err(ErrorKind::NotFound),
            Some(i) => {
                match outcome {
                    AttachOutcome::Confirmed { vm_name, vm_version } => {
                        let st = &mut self.sessions[i];
                        st.session.state = ConnState::Attached;
                        st.session.vm_name = vm_name.clone();
                        st.session.vm_version = vm_version.clone();
                        let snap = st.session.clone();
                        if self.active.is_none() {
                            self.active = Some(id.clone());
                        }
                        proof {
                            let olds = old(self).sessions@;
                            let news = self.sessions@;
                            lemma_unique_after_update(olds, news, i as int);
                            assert forall|k: int|
                                0 <= k < news.len() implies (#[trigger] news[k]).wf() by {
                                if k != i as int {
                                    assert(news[k] == olds[k]);
                                } else {
                                    assert(news[k].threads@ == olds[k].threads@);
                                    assert(news[k].events@ == olds[k].events@);
                                }
                            }
                            match old(self).active {
                                Some(a) => {
                                    let w = choose|w: int|
                                        0 <= w < olds.len() && olds[w].session.id@ == a@;
                                    assert(news[w].session.id@ == a@);
                                },
                                None => {
                                    assert(news[i as int].session.id@ == id@);
                                },
                            }
                        }
                        Ok(snap)
                    },
                    AttachOutcome::TimedOut => {
                        self.drop_session_at(i);
                        Err(ErrorKind::Timeout)
                    },
                    AttachOutcome::Failed => {
                        self.drop_session_at(i);
                        Err(ErrorKind::BridgeUnavailable)
                    },
                }
            },
        }
    }

    /// Remove the session at a registry position, clearing the active
    /// pointer if it named that session. No session becomes active in
    /// its place.
    fn drop_session_at(&mut self, i: usize)
        requires
            old(self).wf(),
            i < old(self).sessions@.len(),
        ensures
            final(self).wf(),
            final(self).sessions@ == old(self).sessions@.remove(i as int),
            !final(self).has_session(old(self).sessions@[i as int].session.id@),
            final(self).active == spec_active_after_removal(
                old(self).active,
                old(self).sessions@[i as int].session.id@,
            ),
            final(self).breakpoints == old(self).breakpoints,
            final(self).exception_breakpoints == old(self).exception_breakpoints,
            final(self).next_bp_id == old(self).next_bp_id,
            final(self).next_ex_id == old(self).next_ex_id,
            final(self).attach_counter == old(self).attach_counter,
            final(self).event_capacity == old(self).event_capacity,
    {
        let removed = self.sessions.remove(i);
        let clear = match &self.active {
            Some(a) => *a == removed.session.id,
            None => false,
        };
        if clear {
            self.active = None;
        }
        proof {
            let olds = old(self).sessions@;
            let news = self.sessions@;
            assert forall|a: int, b: int|
                0 <= a < b < news.len() implies news[a].session.id@ != news[b].session.id@ by {
                if a < i as int {
                    assert(news[a] == olds[a]);
                } else {
                    assert(news[a] == olds[a + 1]);
                }
                if b < i as int {
                    assert(news[b] == olds[b]);
                } else {
                    assert(news[b] == olds[b + 1]);
                }
            }
            assert forall|a: int|
                0 <= a < news.len() implies news[a].session.id@
                != olds[i as int].session.id@ by {
                if a < i as int {
                    assert(news[a] == olds[a]);
                } else {
                    assert(news[a] == olds[a + 1]);
                }
            }
            if !clear && old(self).active.is_some() {
                let aid = old(self).active.unwrap()@;
                let w = choose|k: int|
                    0 <= k < olds.len() && olds[k].session.id@ == aid;
                if w < i as int {
                    assert(news[w] == olds[w]);
                } else if w > i as int {
                    assert(news[w - 1] == olds[w]);
                }
            }
        }
    }

    /// Detach a session: remove it from the registry and cascade, so
    /// its breakpoints, exception breakpoints, execution state, and
    /// event buffer go with it. If it was the active session, no
    /// session becomes active in its place. The returned id is the one
    /// the service layer tells the bridge to release.
    pub fn detach(&mut self, session_id: &Option<String>) -> (r: Result<String, ErrorKind>)
        requires
            old(self).wf(),
        ensures
            final(self).wf(),
            match r {
                Ok(sid) => {
                    let i = old(self).session_index_of(sid@);
                    &&& old(self).spec_resolved(*session_id) == Some(sid@)
                    &&& old(self).has_session(sid@)
                    &&& !final(self).has_session(sid@)
                    &&& final(self).sessions@ == old(self).sessions@.remove(i)
                    &&& final(self).breakpoints@ == crate::breakpoints::remove_session(
                        old(self).breakpoints@,
                        sid@,
                    )
                    &&& final(self).exception_breakpoints@ == crate::breakpoints::ex_remove_session(
                        old(self).exception_breakpoints@,
                        sid@,
                    )
                    &&& final(self).active == spec_active_after_removal(old(self).active, sid@)
                    &&& final(self).next_bp_id == old(self).next_bp_id
                    &&& final(self).next_ex_id == old(self).next_ex_id
                },
                Err(k) => {
                    &&& *final(self) == *old(self)
                    &&& (k == ErrorKind::NoActiveSession <==> old(self).spec_resolved(
                        *session_id,
                    ).is_none())
                    &&& (k == ErrorKind::NotFound ==> (old(self).spec_resolved(*session_id)
                        matches Some(sid) && !old(self).has_session(sid)))
                    &&& (k == ErrorKind::NoActiveSession || k == ErrorKind::NotFound)
                },
            },
    {
        let sid = match self.resolve_session_id(session_id) {
            Ok(s) => s,
            Err(k) => {
                return Err(k);
            },
        };
        let i = match self.find_session(&sid) {
            Some(i) => i,
            None => {
                return Err(ErrorKind::NotFound);
            },
        };
        self.drop_session_at(i);
        self.breakpoints = crate::breakpoints::remove_for_session(&self.breakpoints, &sid);
        self.exception_breakpoints = crate::breakpoints::ex_remove_for_session(
            &self.exception_breakpoints,
            &sid,
        );
        proof {
            crate::breakpoints::lemma_remove_session_wf(
                old(self).breakpoints@,
                sid@,
                old(self).next_bp_id as int,
            );
            crate::breakpoints::lemma_ex_remove_session_wf(
                old(self).exception_breakpoints@,
                sid@,
                old(self).next_ex_id as int,
            );
        }
        Ok(sid)
    }

    /// The status of one session.
    pub fn get_session(&self, session_id: &Option<String>) -> (r: Result<Session, ErrorKind>)
        requires
            self.wf(),
        ensures
            match r {
                Ok(s) => {
                    &&& self.spec_resolved(*session_id) == Some(s.id@)
                    &&& self.has_session(s.id@)
                    &&& s == self.sessions@[self.session_index_of(s.id@)].session
                },
                Err(k) => {
                    &&& (k == ErrorKind::NoActiveSession <==> self.spec_resolved(
                        *session_id,
                    ).is_none())
                    &&& (k == ErrorKind::NotFound ==> (self.spec_resolved(*session_id)
                        matches Some(sid) && !self.has_session(sid)))
                    &&& (k == ErrorKind::NoActiveSession || k == ErrorKind::NotFound)
                },
            },
    {
        let sid = match self.resolve_session_id(session_id) {
            Ok(s) => s,
            Err(k) => {
                return Err(k);
            },
        };
        match self.find_session(&sid) {
            Some(i) => {
                proof {
                    self.lemma_session_index_found(i as int);
                }
                Ok(self.sessions[i].session.clone())
            },
            None => Err(ErrorKind::NotFound),
        }
    }

    /// Every session, in registry order, plus the id of the active
    /// session (empty when none is active).
    pub fn list_sessions(&self) -> (r: (Vec<Session>, String))
        ensures
            r.0@.len() == self.sessions@.len(),
            forall|i: int| 0 <= i < r.0@.len() ==> r.0@[i] == self.sessions@[i].session,
            r.1@ == match self.active {
                Some(a) => a@,
                None => Seq::<char>::empty(),
            },
    {
        let mut out: Vec<Session> = Vec::new();
        let mut i: usize = 0;
        while i < self.sessions.len()
            invariant
                i <= self.sessions@.len(),
                out@.len() == i,
                forall|j: int| 0 <= j < i ==> out@[j] == self.sessions@[j].session,
            decreases self.sessions@.len() - i,
        {
            out.push(self.sessions[i].session.clone());
            i = i + 1;
        }
        let active = match &self.active {
            Some(a) => a.clone(),
            None => String::new(),
        };
        (out, active)
    }

    /// The connection state of a registered session.
    pub open spec fn session_state(self, sid: Seq<char>) -> ConnState {
        self.sessions@[self.session_index_of(sid)].session.state
    }

    /// Why a lookup of an optional session id fails, if it does:
    /// nothing to resolve to, or a resolved id that is not registered.
    pub open spec fn lookup_err(self, requested: Option<String>) -> Option<ErrorKind> {
        match self.spec_resolved(requested) {
            None => Some(ErrorKind::NoActiveSession),
            Some(sid) => if !self.has_session(sid) {
                Some(ErrorKind::NotFound)
            } else {
                None
            },
        }
    }

    /// Why an operation that needs the runtime bridge fails, if it
    /// does: a failed lookup, or a session that is not attached (still
    /// connecting, or with its bridge connection lost).
    pub open spec fn gate_err(self, requested: Option<String>) -> Option<ErrorKind> {
        match self.lookup_err(requested) {
            Some(k) => Some(k),
            None => if self.session_state(self.spec_resolved(requested).unwrap())
                != ConnState::Attached {
                Some(ErrorKind::BridgeUnavailable)
            } else {
                None
            },
        }
    }

    /// Resolve an optional session id and find the session.
    fn lookup_session(&self, session_id: &Option<String>) -> (r: Result<
        (String, usize),
        ErrorKind,
    >)
        requires
            self.wf(),
        ensures
            match r {
                Ok((sid, i)) => {
                    &&& self.lookup_err(*session_id).is_none()
                    &&& self.spec_resolved(*session_id) == Some(sid@)
                    &&& i < self.sessions@.len()
                    &&& self.sessions@[i as int].session.id@ == sid@
                    &&& i == self.session_index_of(sid@)
                },
                Err(k) => self.lookup_err(*session_id) == Some(k),
            },
    {
        let sid = match self.resolve_session_id(session_id) {
            Ok(s) => s,
            Err(k) => {
                return Err(k);
            },
        };
        match self.find_session(&sid) {
            Some(i) => {
                proof {
                    self.lemma_session_index_found(i as int);
                }
                Ok((sid, i))
            },
            None => Err(ErrorKind::NotFound),
        }
    }

    /// Resolve an optional session id, find the session, and demand an
    /// attached bridge.
    pub fn check_attached(&self, session_id: &Option<String>) -> (r: Result<
        (String, usize),
        ErrorKind,
    >)
        requires
            self.wf(),
        ensures
            match r {
                Ok((sid, i)) => {
                    &&& self.gate_err(*session_id).is_none()
                    &&& self.spec_resolved(*session_id) == Some(sid@)
                    &&& i < self.sessions@.len()
                    &&& self.sessions@[i as int].session.id@ == sid@
                    &&& i == self.session_index_of(sid@)
                    &&& self.sessions@[i as int].session.state == ConnState::Attached
                },
                Err(k) => self.gate_err(*session_id) == Some(k),
            },
    {
        let (sid, i) = match self.lookup_session(session_id) {
            Ok(p) => p,
            Err(k) => {
                return Err(k);
            },
        };
        match self.sessions[i].session.state {
            ConnState::Attached => Ok((sid, i)),
            _ => Err(ErrorKind::BridgeUnavailable),
        }
    }

    /// Record a breakpoint that the bridge was asked to install.
    /// `installed` is the bridge's answer: when installation failed,
    /// the call fails with `InvalidLocation` and nothing is recorded.
    /// On success the new breakpoint carries a never-before-used id,
    /// the resolved owning session, a zero hit count, and the given
    /// location, condition, and enabled flag.
    pub fn add_breakpoint(
        &mut self,
        session_id: &Option<String>,
        location: &BpLocation,
        condition: &Option<String>,
        enabled: bool,
        installed: bool,
    ) -> (r: Result<Breakpoint, ErrorKind>)
        requires
            old(self).wf(),
            old(self).next_bp_id < u64::MAX,
        ensures
            final(self).wf(),
            match r {
                Ok(bp) => {
                    &&& old(self).gate_err(*session_id).is_none()
                    &&& installed
                    &&& Some(bp.session_id@) == old(self).spec_resolved(*session_id)
                    &&& bp.id == old(self).next_bp_id
                    &&& bp.location == *location
                    &&& bp.condition == *condition
                    &&& bp.enabled == enabled
                    &&& bp.hit_count == 0
                    &&& final(self).breakpoints@ == old(self).breakpoints@.push(bp)
                    &&& final(self).next_bp_id == old(self).next_bp_id + 1
                    &&& final(self).sessions == old(self).sessions
                    &&& final(self).active == old(self).active
                    &&& final(self).exception_breakpoints == old(self).exception_breakpoints
                },
                Err(k) => {
                    &&& *final(self) == *old(self)
                    &&& match old(self).gate_err(*session_id) {
                        Some(g) => k == g,
                        None => k == ErrorKind::InvalidLocation && !installed,
                    }
                },
            },
    {
        let (sid, _i) = match self.check_attached(session_id) {
            Ok(p) => p,
            Err(k) => {
                return Err(k);
            },
        };
        if !installed {
            return Err(ErrorKind::InvalidLocation);
        }
        let bp = Breakpoint {
            id: self.next_bp_id,
            session_id: sid,
            location: location.clone(),
            condition: crate::breakpoints::clone_opt_string(condition),
            enabled,
            hit_count: 0,
        };
        let snap = bp.clone();
        self.breakpoints.push(bp);
        self.next_bp_id = self.next_bp_id + 1;
        Ok(snap)
    }

    /// Drop a breakpoint from the catalog; its id is never used again.
    /// The removed entry is returned so the service layer can tell the
    /// bridge to uninstall it.
    pub fn remove_breakpoint(&mut self, bp_id: u64) -> (r: Result<Breakpoint, ErrorKind>)
        requires
            old(self).wf(),
        ensures
            final(self).wf(),
            match r {
                Ok(bp) => {
                    &&& bp.id == bp_id
                    &&& old(self).breakpoints@.contains(bp)
                    &&& final(self).breakpoints@ == crate::breakpoints::remove_id(
                        old(self).breakpoints@,
                        bp_id,
                    )
                    &&& final(self).sessions == old(self).sessions
                    &&& final(self).active == old(self).active
                    &&& final(self).exception_breakpoints == old(self).exception_breakpoints
                    &&& final(self).next_bp_id == old(self).next_bp_id
                },
                Err(k) => {
                    &&& *final(self) == *old(self)
                    &&& k == ErrorKind::NotFound
                    &&& forall|i: int|
                        0 <= i < old(self).breakpoints@.len() ==> old(self).breakpoints@[i].id
                            != bp_id
                },
            },
    {
        let i = match crate::breakpoints::find_breakpoint(&self.breakpoints, bp_id) {
            Some(i) => i,
            None => {
                return Err(ErrorKind::NotFound);
            },
        };
        let removed = self.breakpoints[i].clone();
        self.breakpoints = crate::breakpoints::remove_by_id(&self.breakpoints, bp_id);
        proof {
            crate::breakpoints::lemma_remove_id_wf(
                old(self).breakpoints@,
                bp_id,
                old(self).next_bp_id as int,
            );
            assert(old(self).breakpoints@.contains(removed)) by {
                assert(old(self).breakpoints@[i as int] == removed);
            }
        }
        Ok(removed)
    }

    /// Replace the enabled flag of a breakpoint, returning the updated
    /// entry. Disabling keeps the catalog entry and its hit count;
    /// the service layer removes or reinstalls the bridge
    /// instrumentation accordingly.
    pub fn set_breakpoint_enabled(&mut self, bp_id: u64, value: bool) -> (r: Result<
        Breakpoint,
        ErrorKind,
    >)
        requires
            old(self).wf(),
        ensures
            final(self).wf(),
            match r {
                Ok(bp) => {
                    &&& bp.id == bp_id
                    &&& bp.enabled == value
                    &&& old(self).breakpoints@.contains(
                        Breakpoint { enabled: old(self).breakpoints@[crate::breakpoints::bp_index_of(
                            old(self).breakpoints@,
                            bp_id,
                        )].enabled, ..bp },
                    )
                    &&& final(self).breakpoints@ == crate::breakpoints::set_enabled(
                        old(self).breakpoints@,
                        bp_id,
                        value,
                    )
                    &&& final(self).sessions == old(self).sessions
                    &&& final(self).active == old(self).active
                    &&& final(self).exception_breakpoints == old(self).exception_breakpoints
                    &&& final(self).next_bp_id == old(self).next_bp_id
                },
                Err(k) => {
                    &&& *final(self) == *old(self)
                    &&& k == ErrorKind::NotFound
                    &&& forall|i: int|
                        0 <= i < old(self).breakpoints@.len() ==> old(self).breakpoints@[i].id
                            != bp_id
                },
            },
    {
        let i = match crate::breakpoints::find_breakpoint(&self.breakpoints, bp_id) {
            Some(i) => i,
            None => {
                return Err(ErrorKind::NotFound);
            },
        };
        self.breakpoints = crate::breakpoints::set_enabled_by_id(&self.breakpoints, bp_id, value);
        proof {
            crate::breakpoints::lemma_set_enabled_shape(old(self).breakpoints@, bp_id, value);
            assert forall|a: int, b: int|
                0 <= a < b < self.breakpoints@.len() implies self.breakpoints@[a].id
                != self.breakpoints@[b].id by {
                assert(old(self).breakpoints@[a].id != old(self).breakpoints@[b].id);
            }
            crate::breakpoints::lemma_bp_index_found(old(self).breakpoints@, i as int);
        }
        let bp = self.breakpoints[i].clone();
        proof {
            assert(old(self).breakpoints@[i as int] == Breakpoint {
                enabled: old(self).breakpoints@[i as int].enabled,
                ..bp
            });
        }
        Ok(bp)
    }

    /// Enable a breakpoint; the service layer reinstalls its bridge
    /// instrumentation.
    pub fn enable_breakpoint(&mut self, bp_id: u64) -> (r: Result<Breakpoint, ErrorKind>)
        requires
            old(self).wf(),
        ensures
            final(self).wf(),
            match r {
                Ok(bp) => {
                    &&& bp.id == bp_id
                    &&& bp.enabled
                    &&& old(self).breakpoints@.contains(
                        Breakpoint { enabled: old(self).breakpoints@[crate::breakpoints::bp_index_of(
                            old(self).breakpoints@,
                            bp_id,
                        )].enabled, ..bp },
                    )
                    &&& final(self).breakpoints@ == crate::breakpoints::set_enabled(
                        old(self).breakpoints@,
                        bp_id,
                        true,
                    )
                    &&& final(self).sessions == old(self).sessions
                    &&& final(self).exception_breakpoints == old(self).exception_breakpoints
                },
                Err(k) => {
                    &&& *final(self) == *old(self)
                    &&& k == ErrorKind::NotFound
                    &&& forall|i: int|
                        0 <= i < old(self).breakpoints@.len() ==> old(self).breakpoints@[i].id
                            != bp_id
                },
            },
    {
        self.set_breakpoint_enabled(bp_id, true)
    }

    /// Disable a breakpoint: the catalog entry and its hit count stay;
    /// the service layer removes its bridge instrumentation.
    pub fn disable_breakpoint(&mut self, bp_id: u64) -> (r: Result<Breakpoint, ErrorKind>)
        requires
            old(self).wf(),
        ensures
            final(self).wf(),
            match r {
                Ok(bp) => {
                    &&& bp.id == bp_id
                    &&& !bp.enabled
                    &&& old(self).breakpoints@.contains(
                        Breakpoint { enabled: old(self).breakpoints@[crate::breakpoints::bp_index_of(
                            old(self).breakpoints@,
                            bp_id,
                        )].enabled, ..bp },
                    )
                    &&& final(self).breakpoints@ == crate::breakpoints::set_enabled(
                        old(self).breakpoints@,
                        bp_id,
                        false,
                    )
                    &&& final(self).sessions == old(self).sessions
                    &&& final(self).exception_breakpoints == old(self).exception_breakpoints
                },
                Err(k) => {
                    &&& *final(self) == *old(self)
                    &&& k == ErrorKind::NotFound
                    &&& forall|i: int|
                        0 <= i < old(self).breakpoints@.len() ==> old(self).breakpoints@[i].id
                            != bp_id
                },
            },
    {
        self.set_breakpoint_enabled(bp_id, false)
    }

    /// The breakpoints of one session, in the order they were added.
    pub fn list_breakpoints(&self, session_id: &Option<String>) -> (r: Result<
        Vec<Breakpoint>,
        ErrorKind,
    >)
        requires
            self.wf(),
        ensures
            match r {
                Ok(bps) => {
                    &&& self.lookup_err(*session_id).is_none()
                    &&& bps@ == crate::breakpoints::owned_by(
                        self.breakpoints@,
                        self.spec_resolved(*session_id).unwrap(),
                    )
                },
                Err(k) => self.lookup_err(*session_id) == Some(k),
            },
    {
        let (sid, _i) = match self.lookup_session(session_id) {
            Ok(p) => p,
            Err(k) => {
                return Err(k);
            },
        };
        Ok(crate::breakpoints::list_for_session(&self.breakpoints, &sid))
    }

    /// Remove every breakpoint and exception breakpoint of one
    /// session.
    pub fn clear_breakpoints(&mut self, session_id: &Option<String>) -> (r: Result<
        String,
        ErrorKind,
    >)
        requires
            old(self).wf(),
        ensures
            final(self).wf(),
            match r {
                Ok(sid) => {
                    &&& old(self).lookup_err(*session_id).is_none()
                    &&& Some(sid@) == old(self).spec_resolved(*session_id)
                    &&& final(self).breakpoints@ == crate::breakpoints::remove_session(
                        old(self).breakpoints@,
                        sid@,
                    )
                    &&& final(self).exception_breakpoints@ == crate::breakpoints::ex_remove_session(
                        old(self).exception_breakpoints@,
                        sid@,
                    )
                    &&& final(self).sessions == old(self).sessions
                    &&& final(self).active == old(self).active
                    &&& final(self).next_bp_id == old(self).next_bp_id
                    &&& final(self).next_ex_id == old(self).next_ex_id
                },
                Err(k) => {
                    &&& *final(self) == *old(self)
                    &&& old(self).lookup_err(*session_id) == Some(k)
                },
            },
    {
        let (sid, _i) = match self.lookup_session(session_id) {
            Ok(p) => p,
            Err(k) => {
                return Err(k);
            },
        };
        self.breakpoints = crate::breakpoints::remove_for_session(&self.breakpoints, &sid);
        self.exception_breakpoints = crate::breakpoints::ex_remove_for_session(
            &self.exception_breakpoints,
            &sid,
        );
        proof {
            crate::breakpoints::lemma_remove_session_wf(
                old(self).breakpoints@,
                sid@,
                old(self).next_bp_id as int,
            );
            crate::breakpoints::lemma_ex_remove_session_wf(
                old(self).exception_breakpoints@,
                sid@,
                old(self).next_ex_id as int,
            );
        }
        Ok(sid)
    }

    /// Record an exception breakpoint with a never-before-used id and
    /// independent caught/uncaught flags.
    pub fn catch_exception(
        &mut self,
        session_id: &Option<String>,
        exception_class: &String,
        caught: bool,
        uncaught: bool,
    ) -> (r: Result<ExceptionBreakpoint, ErrorKind>)
        requires
            old(self).wf(),
            old(self).next_ex_id < u64::MAX,
        ensures
            final(self).wf(),
            match r {
                Ok(ex) => {
                    &&& old(self).gate_err(*session_id).is_none()
                    &&& Some(ex.session_id@) == old(self).spec_resolved(*session_id)
                    &&& ex.id == old(self).next_ex_id
                    &&& ex.exception_class@ == exception_class@
                    &&& ex.caught == caught
                    &&& ex.uncaught == uncaught
                    &&& final(self).exception_breakpoints@ == old(
                        self,
                    ).exception_breakpoints@.push(ex)
                    &&& final(self).next_ex_id == old(self).next_ex_id + 1
                    &&& final(self).sessions == old(self).sessions
                    &&& final(self).breakpoints == old(self).breakpoints
                },
                Err(k) => {
                    &&& *final(self) == *old(self)
                    &&& old(self).gate_err(*session_id) == Some(k)
                },
            },
    {
        let (sid, _i) = match self.check_attached(session_id) {
            Ok(p) => p,
            Err(k) => {
                return Err(k);
            },
        };
        let ex = ExceptionBreakpoint {
            id: self.next_ex_id,
            session_id: sid,
            exception_class: exception_class.clone(),
            caught,
            uncaught,
        };
        let snap = ex.clone();
        self.exception_breakpoints.push(ex);
        self.next_ex_id = self.next_ex_id + 1;
        Ok(snap)
    }

    /// Drop an exception breakpoint; the removed entry is returned so
    /// the service layer can tell the bridge to stop reporting it.
    pub fn ignore_exception(&mut self, ex_id: u64) -> (r: Result<ExceptionBreakpoint, ErrorKind>)
        requires
            old(self).wf(),
        ensures
            final(self).wf(),
            match r {
                Ok(ex) => {
                    &&& ex.id == ex_id
                    &&& old(self).exception_breakpoints@.contains(ex)
                    &&& final(self).exception_breakpoints@ == crate::breakpoints::ex_remove_id(
                        old(self).exception_breakpoints@,
                        ex_id,
                    )
                    &&& final(self).sessions == old(self).sessions
                    &&& final(self).breakpoints == old(self).breakpoints
                    &&& final(self).next_ex_id == old(self).next_ex_id
                },
                Err(k) => {
                    &&& *final(self) == *old(self)
                    &&& k == ErrorKind::NotFound
                    &&& forall|i: int|
                        0 <= i < old(self).exception_breakpoints@.len() ==> old(
                            self,
                        ).exception_breakpoints@[i].id != ex_id
                },
            },
    {
        let i = match crate::breakpoints::find_exception_breakpoint(
            &self.exception_breakpoints,
            ex_id,
        ) {
            Some(i) => i,
            None => {
                return Err(ErrorKind::NotFound);
            },
        };
        let removed = self.exception_breakpoints[i].clone();
        self.exception_breakpoints = crate::breakpoints::ex_remove_by_id(
            &self.exception_breakpoints,
            ex_id,
        );
        proof {
            crate::breakpoints::lemma_ex_remove_id_wf(
                old(self).exception_breakpoints@,
                ex_id,
                old(self).next_ex_id as int,
            );
            assert(old(self).exception_breakpoints@.contains(removed)) by {
                assert(old(self).exception_breakpoints@[i as int] == removed);
            }
        }
        Ok(removed)
    }

    /// The exception breakpoints of one session, in the order they
    /// were added.
    pub fn list_exception_breakpoints(&self, session_id: &Option<String>) -> (r: Result<
        Vec<ExceptionBreakpoint>,
        ErrorKind,
    >)
        requires
            self.wf(),
        ensures
            match r {
                Ok(exs) => {
                    &&& self.lookup_err(*session_id).is_none()
                    &&& exs@ == crate::breakpoints::ex_owned_by(
                        self.exception_breakpoints@,
                        self.spec_resolved(*session_id).unwrap(),
                    )
                },
                Err(k) => self.lookup_err(*session_id) == Some(k),
            },
    {
        let (sid, _i) = match self.lookup_session(session_id) {
            Ok(p) => p,
            Err(k) => {
                return Err(k);
            },
        };
        Ok(crate::breakpoints::ex_list_for_session(&self.exception_breakpoints, &sid))
    }

    /// The thread a request aims at: the one given, or the session's
    /// selected thread.
    pub open spec fn spec_target_thread(st: SessionState, requested: Option<i64>) -> Option<i64> {
        match requested {
            Some(t) => Some(t),
            None => st.selected_thread,
        }
    }

    /// Re-establish the registry's well-formedness and the active
    /// session's existence after session `i` was replaced by a
    /// well-formed entry with the same id.
    proof fn session_updated(&self, pre: DebugCore, i: int)
        requires
            pre.wf(),
            0 <= i < pre.sessions@.len(),
            self.sessions@ == pre.sessions@.update(i, self.sessions@[i]),
            self.sessions@[i].session.id@ == pre.sessions@[i].session.id@,
            self.sessions@[i].wf(),
            self.active == pre.active,
            bp_ids_unique(self.breakpoints@),
            forall|k: int|
                0 <= k < self.breakpoints@.len() ==> (#[trigger] self.breakpoints@[k]).id
                    < self.next_bp_id,
            forall|k: int, l: int|
                0 <= k < l < self.exception_breakpoints@.len()
                    ==> self.exception_breakpoints@[k].id != self.exception_breakpoints@[l].id,
            forall|k: int|
                0 <= k < self.exception_breakpoints@.len()
                    ==> (#[trigger] self.exception_breakpoints@[k]).id < self.next_ex_id,
            self.event_capacity == pre.event_capacity,
        ensures
            self.wf(),
    {
        lemma_update_session_wf(pre.sessions@, self.sessions@, i);
        match pre.active {
            Some(a) => {
                let w = choose|w: int|
                    0 <= w < pre.sessions@.len() && pre.sessions@[w].session.id@ == a@;
                assert(self.sessions@[w].session.id@ == a@);
            },
            None => {},
        }
    }

    /// Resume every thread of a session and drop any pending step
    /// request. The returned id tells the service layer which session
    /// the bridge must resume.
    pub fn continue_all(&mut self, session_id: &Option<String>) -> (r: Result<String, ErrorKind>)
        requires
            old(self).wf(),
        ensures
            final(self).wf(),
            match r {
                Ok(sid) => {
                    let i = old(self).session_index_of(sid@);
                    &&& old(self).gate_err(*session_id).is_none()
                    &&& Some(sid@) == old(self).spec_resolved(*session_id)
                    &&& final(self).sessions@ == old(self).sessions@.update(
                        i,
                        SessionState {
                            threads: final(self).sessions@[i].threads,
                            pending_step: None,
                            ..old(self).sessions@[i]
                        },
                    )
                    &&& final(self).sessions@[i].threads@
                        == crate::threads::set_all_thread_status(
                        old(self).sessions@[i].threads@,
                        ThreadStatus::Running,
                    )
                    &&& final(self).breakpoints == old(self).breakpoints
                    &&& final(self).exception_breakpoints == old(self).exception_breakpoints
                    &&& final(self).active == old(self).active
                },
                Err(k) => {
                    &&& *final(self) == *old(self)
                    &&& old(self).gate_err(*session_id) == Some(k)
                },
            },
    {
        let (sid, i) = match self.check_attached(session_id) {
            Ok(p) => p,
            Err(k) => {
                return Err(k);
            },
        };
        let new_threads = crate::threads::set_all_status(
            &self.sessions[i].threads,
            ThreadStatus::Running,
        );
        let st = &mut self.sessions[i];
        st.threads = new_threads;
        st.pending_step = None;
        proof {
            crate::threads::lemma_set_all_thread_status_wf(
                old(self).sessions@[i as int].threads@,
                ThreadStatus::Running,
            );
            self.session_updated(*old(self), i as int);
        }
        Ok(sid)
    }

    /// Suspend one thread, or every thread when none is given. The
    /// returned pair tells the service layer which session and which
    /// thread (`None` meaning all) the bridge must suspend.
    pub fn suspend(&mut self, session_id: &Option<String>, thread_id: &Option<i64>) -> (r: Result<
        (String, Option<i64>),
        ErrorKind,
    >)
        requires
            old(self).wf(),
        ensures
            final(self).wf(),
            match r {
                Ok((sid, t)) => {
                    let i = old(self).session_index_of(sid@);
                    &&& old(self).gate_err(*session_id).is_none()
                    &&& Some(sid@) == old(self).spec_resolved(*session_id)
                    &&& t == *thread_id
                    &&& final(self).sessions@ == old(self).sessions@.update(
                        i,
                        SessionState {
                            threads: final(self).sessions@[i].threads,
                            ..old(self).sessions@[i]
                        },
                    )
                    &&& final(self).sessions@[i].threads@ == (match t {
                        Some(tid) => crate::threads::set_thread_status(
                            old(self).sessions@[i].threads@,
                            tid,
                            ThreadStatus::Suspended,
                        ),
                        None => crate::threads::set_all_thread_status(
                            old(self).sessions@[i].threads@,
                            ThreadStatus::Suspended,
                        ),
                    })
                    &&& (t matches Some(tid) ==> crate::threads::has_thread(
                        old(self).sessions@[i].threads@,
                        tid,
                    ))
                    &&& final(self).breakpoints == old(self).breakpoints
                    &&& final(self).exception_breakpoints == old(self).exception_breakpoints
                    &&& final(self).active == old(self).active
                },
                Err(k) => {
                    &&& *final(self) == *old(self)
                    &&& match old(self).gate_err(*session_id) {
                        Some(g) => k == g,
                        None => {
                            let i = old(self).session_index_of(
                                old(self).spec_resolved(*session_id).unwrap(),
                            );
                            &&& k == ErrorKind::NotFound
                            &&& (*thread_id matches Some(tid) && !crate::threads::has_thread(
                                old(self).sessions@[i].threads@,
                                tid,
                            ))
                        },
                    }
                },
            },
    {
        self.set_threads_status(session_id, thread_id, ThreadStatus::Suspended)
    }

    /// Resume one thread, or every thread when none is given. The
    /// returned pair tells the service layer which session and which
    /// thread (`None` meaning all) the bridge must resume.
    pub fn resume(&mut self, session_id: &Option<String>, thread_id: &Option<i64>) -> (r: Result<
        (String, Option<i64>),
        ErrorKind,
    >)
        requires
            old(self).wf(),
        ensures
            final(self).wf(),
            match r {
                Ok((sid, t)) => {
                    let i = old(self).session_index_of(sid@);
                    &&& old(self).gate_err(*session_id).is_none()
                    &&& Some(sid@) == old(self).spec_resolved(*session_id)
                    &&& t == *thread_id
                    &&& final(self).sessions@ == old(self).sessions@.update(
                        i,
                        SessionState {
                            threads: final(self).sessions@[i].threads,
                            ..old(self).sessions@[i]
                        },
                    )
                    &&& final(self).sessions@[i].threads@ == (match t {
                        Some(tid) => crate::threads::set_thread_status(
                            old(self).sessions@[i].threads@,
                            tid,
                            ThreadStatus::Running,
                        ),
                        None => crate::threads::set_all_thread_status(
                            old(self).sessions@[i].threads@,
                            ThreadStatus::Running,
                        ),
                    })
                    &&& (t matches Some(tid) ==> crate::threads::has_thread(
                        old(self).sessions@[i].threads@,
                        tid,
                    ))
                    &&& final(self).breakpoints == old(self).breakpoints
                    &&& final(self).exception_breakpoints == old(self).exception_breakpoints
                    &&& final(self).active == old(self).active
                },
                Err(k) => {
                    &&& *final(self) == *old(self)
                    &&& match old(self).gate_err(*session_id) {
                        Some(g) => k == g,
                        None => {
                            let i = old(self).session_index_of(
                                old(self).spec_resolved(*session_id).unwrap(),
                            );
                            &&& k == ErrorKind::NotFound
                            &&& (*thread_id matches Some(tid) && !crate::threads::has_thread(
                                old(self).sessions@[i].threads@,
                                tid,
                            ))
                        },
                    }
                },
            },
    {
        self.set_threads_status(session_id, thread_id, ThreadStatus::Running)
    }

    /// Set one thread's status, or every thread's when none is given.
    fn set_threads_status(
        &mut self,
        session_id: &Option<String>,
        thread_id: &Option<i64>,
        status: ThreadStatus,
    ) -> (r: Result<(String, Option<i64>), ErrorKind>)
        requires
            old(self).wf(),
        ensures
            final(self).wf(),
            match r {
                Ok((sid, t)) => {
                    let i = old(self).session_index_of(sid@);
                    &&& old(self).gate_err(*session_id).is_none()
                    &&& Some(sid@) == old(self).spec_resolved(*session_id)
                    &&& t == *thread_id
                    &&& final(self).sessions@ == old(self).sessions@.update(
                        i,
                        SessionState {
                            threads: final(self).sessions@[i].threads,
                            ..old(self).sessions@[i]
                        },
                    )
                    &&& final(self).sessions@[i].threads@ == (match t {
                        Some(tid) => crate::threads::set_thread_status(
                            old(self).sessions@[i].threads@,
                            tid,
                            status,
                        ),
                        None => crate::threads::set_all_thread_status(
                            old(self).sessions@[i].threads@,
                            status,
                        ),
                    })
                    &&& (t matches Some(tid) ==> crate::threads::has_thread(
                        old(self).sessions@[i].threads@,
                        tid,
                    ))
                    &&& final(self).breakpoints == old(self).breakpoints
                    &&& final(self).exception_breakpoints == old(self).exception_breakpoints
                    &&& final(self).active == old(self).active
                },
                Err(k) => {
                    &&& *final(self) == *old(self)
                    &&& match old(self).gate_err(*session_id) {
                        Some(g) => k == g,
                        None => {
                            let i = old(self).session_index_of(
                                old(self).spec_resolved(*session_id).unwrap(),
                            );
                            &&& k == ErrorKind::NotFound
                            &&& (*thread_id matches Some(tid) && !crate::threads::has_thread(
                                old(self).sessions@[i].threads@,
                                tid,
                            ))
                        },
                    }
                },
            },
    {
        let (sid, i) = match self.check_attached(session_id) {
            Ok(p) => p,
            Err(k) => {
                return Err(k);
            },
        };
        let new_threads = match thread_id {
            Some(tid) => {
                if crate::threads::find_thread(&self.sessions[i].threads, *tid).is_none() {
                    return Err(ErrorKind::NotFound);
                }
                crate::threads::set_status_by_id(&self.sessions[i].threads, *tid, status)
            },
            None => crate::threads::set_all_status(&self.sessions[i].threads, status),
        };
        let st = &mut self.sessions[i];
        st.threads = new_threads;
        proof {
            match *thread_id {
                Some(tid) => {
                    crate::threads::lemma_set_thread_status_wf(
                        old(self).sessions@[i as int].threads@,
                        tid,
                        status,
                    );
                },
                None => {
                    crate::threads::lemma_set_all_thread_status_wf(
                        old(self).sessions@[i as int].threads@,
                        status,
                    );
                },
            }
            self.session_updated(*old(self), i as int);
        }
        Ok((sid, *thread_id))
    }

    /// Ask for a step. The target thread — the given one, or the
    /// session's selected thread — must be suspended. The recorded
    /// request is returned; the service layer forwards it to the
    /// bridge, then reports back with `step_completed` or
    /// `step_failed`.
    pub fn request_step(
        &mut self,
        session_id: &Option<String>,
        thread_id: &Option<i64>,
        depth: StepDepth,
    ) -> (r: Result<StepRequest, ErrorKind>)
        requires
            old(self).wf(),
        ensures
            final(self).wf(),
            match r {
                Ok(req) => {
                    let i = old(self).session_index_of(
                        old(self).spec_resolved(*session_id).unwrap(),
                    );
                    &&& old(self).gate_err(*session_id).is_none()
                    &&& Some(req.thread_id) == Self::spec_target_thread(
                        old(self).sessions@[i],
                        *thread_id,
                    )
                    &&& req.depth == depth
                    &&& req.size == StepSize::Line
                    &&& crate::threads::has_thread(
                        old(self).sessions@[i].threads@,
                        req.thread_id,
                    )
                    &&& old(self).sessions@[i].threads@[crate::threads::thread_at(
                        old(self).sessions@[i].threads@,
                        req.thread_id,
                    )].suspended
                    &&& final(self).sessions@ == old(self).sessions@.update(
                        i,
                        SessionState { pending_step: Some(req), ..old(self).sessions@[i] },
                    )
                    &&& final(self).breakpoints == old(self).breakpoints
                    &&& final(self).exception_breakpoints == old(self).exception_breakpoints
                    &&& final(self).active == old(self).active
                },
                Err(k) => {
                    &&& *final(self) == *old(self)
                    &&& match old(self).gate_err(*session_id) {
                        Some(g) => k == g,
                        None => {
                            let i = old(self).session_index_of(
                                old(self).spec_resolved(*session_id).unwrap(),
                            );
                            match Self::spec_target_thread(old(self).sessions@[i], *thread_id) {
                                None => k == ErrorKind::NotFound,
                                Some(tid) => if !crate::threads::has_thread(
                                    old(self).sessions@[i].threads@,
                                    tid,
                                ) {
                                    k == ErrorKind::NotFound
                                } else {
                                    k == ErrorKind::ThreadNotSuspended && !old(
                                        self,
                                    ).sessions@[i].threads@[crate::threads::thread_at(
                                        old(self).sessions@[i].threads@,
                                        tid,
                                    )].suspended
                                },
                            }
                        },
                    }
                },
            },
    {
        let (_sid, i) = match self.check_attached(session_id) {
            Ok(p) => p,
            Err(k) => {
                return Err(k);
            },
        };
        let tid: i64 = match thread_id {
            Some(t) => *t,
            None => {
                match self.sessions[i].selected_thread {
                    Some(t) => t,
                    None => {
                        return Err(ErrorKind::NotFound);
                    },
                }
            },
        };
        let j = match crate::threads::find_thread(&self.sessions[i].threads, tid) {
            Some(j) => j,
            None => {
                return Err(ErrorKind::NotFound);
            },
        };
        proof {
            crate::threads::lemma_thread_at_found(self.sessions@[i as int].threads@, j as int);
        }
        if !self.sessions[i].threads[j].suspended {
            return Err(ErrorKind::ThreadNotSuspended);
        }
        let req = StepRequest { thread_id: tid, depth, size: StepSize::Line };
        let st = &mut self.sessions[i];
        st.pending_step = Some(req);
        proof {
            self.session_updated(*old(self), i as int);
        }
        Ok(req)
    }

    /// The bridge finished the pending step of a session: the step
    /// request is cleared, the stepped thread stands suspended at the
    /// new location, and a step-completed event joins the buffer.
    pub fn step_completed(
        &mut self,
        session_id: &String,
        location: &crate::events::SourceLocation,
        timestamp: i64,
    ) -> (r: Result<StepRequest, ErrorKind>)
        requires
            old(self).wf(),
            forall|i: int|
                0 <= i < old(self).sessions@.len() ==> (#[trigger] old(
                    self,
                ).sessions@[i]).events@.next_seq < u64::MAX,
        ensures
            final(self).wf(),
            match r {
                Ok(req) => {
                    let i = old(self).session_index_of(session_id@);
                    &&& old(self).has_session(session_id@)
                    &&& old(self).sessions@[i].pending_step == Some(req)
                    &&& final(self).sessions@ == old(self).sessions@.update(
                        i,
                        SessionState {
                            threads: final(self).sessions@[i].threads,
                            pending_step: None,
                            events: final(self).sessions@[i].events,
                            ..old(self).sessions@[i]
                        },
                    )
                    &&& final(self).sessions@[i].threads@ == crate::threads::set_thread_status(
                        old(self).sessions@[i].threads@,
                        req.thread_id,
                        ThreadStatus::Suspended,
                    )
                    &&& final(self).sessions@[i].events@ == crate::buffer::push_model(
                        old(self).sessions@[i].events@,
                        crate::events::EventDetails::StepCompleted {
                            thread_id: req.thread_id,
                            location: *location,
                        },
                        timestamp,
                    )
                    &&& final(self).breakpoints == old(self).breakpoints
                    &&& final(self).exception_breakpoints == old(self).exception_breakpoints
                    &&& final(self).active == old(self).active
                },
                Err(k) => {
                    &&& *final(self) == *old(self)
                    &&& if !old(self).has_session(session_id@) {
                        k == ErrorKind::NotFound
                    } else {
                        k == ErrorKind::StepFailed && old(self).sessions@[old(
                            self,
                        ).session_index_of(session_id@)].pending_step.is_none()
                    }
                },
            },
    {
        let i = match self.find_session(session_id) {
            Some(i) => i,
            None => {
                return Err(ErrorKind::NotFound);
            },
        };
        let req = match self.sessions[i].pending_step {
            Some(req) => req,
            None => {
                return Err(ErrorKind::StepFailed);
            },
        };
        let new_threads = crate::threads::set_status_by_id(
            &self.sessions[i].threads,
            req.thread_id,
            ThreadStatus::Suspended,
        );
        let details = crate::events::EventDetails::StepCompleted {
            thread_id: req.thread_id,
            location: location.clone(),
        };
        let st = &mut self.sessions[i];
        st.threads = new_threads;
        st.pending_step = None;
        st.events.push(details, timestamp);
        proof {
            crate::threads::lemma_set_thread_status_wf(
                old(self).sessions@[i as int].threads@,
                req.thread_id,
                ThreadStatus::Suspended,
            );
            self.session_updated(*old(self), i as int);
        }
        Ok(req)
    }

    /// The bridge could not finish the pending step of a session: the
    /// step request is dropped. The service layer reports the step as
    /// failed to its caller.
    pub fn step_failed(&mut self, session_id: &String) -> (r: Result<StepRequest, ErrorKind>)
        requires
            old(self).wf(),
        ensures
            final(self).wf(),
            match r {
                Ok(req) => {
                    let i = old(self).session_index_of(session_id@);
                    &&& old(self).has_session(session_id@)
                    &&& old(self).sessions@[i].pending_step == Some(req)
                    &&& final(self).sessions@ == old(self).sessions@.update(
                        i,
                        SessionState { pending_step: None, ..old(self).sessions@[i] },
                    )
                    &&& final(self).breakpoints == old(self).breakpoints
                    &&& final(self).exception_breakpoints == old(self).exception_breakpoints
                    &&& final(self).active == old(self).active
                },
                Err(k) => {
                    &&& *final(self) == *old(self)
                    &&& if !old(self).has_session(session_id@) {
                        k == ErrorKind::NotFound
                    } else {
                        k == ErrorKind::StepFailed && old(self).sessions@[old(
                            self,
                        ).session_index_of(session_id@)].pending_step.is_none()
                    }
                },
            },
    {
        let i = match self.find_session(session_id) {
            Some(i) => i,
            None => {
                return Err(ErrorKind::NotFound);
            },
        };
        let req = match self.sessions[i].pending_step {
            Some(req) => req,
            None => {
                return Err(ErrorKind::StepFailed);
            },
        };
        let st = &mut self.sessions[i];
        st.pending_step = None;
        proof {
            self.session_updated(*old(self), i as int);
        }
        Ok(req)
    }

    /// Select the session's current thread; the selected frame resets
    /// to the innermost one.
    pub fn select_thread(&mut self, session_id: &Option<String>, thread_id: i64) -> (r: Result<
        (),
        ErrorKind,
    >)
        requires
            old(self).wf(),
        ensures
            final(self).wf(),
            match r {
                Ok(()) => {
                    let i = old(self).session_index_of(
                        old(self).spec_resolved(*session_id).unwrap(),
                    );
                    &&& old(self).lookup_err(*session_id).is_none()
                    &&& crate::threads::has_thread(old(self).sessions@[i].threads@, thread_id)
                    &&& final(self).sessions@ == old(self).sessions@.update(
                        i,
                        SessionState {
                            selected_thread: Some(thread_id),
                            selected_frame: 0,
                            ..old(self).sessions@[i]
                        },
                    )
                    &&& final(self).breakpoints == old(self).breakpoints
                    &&& final(self).exception_breakpoints == old(self).exception_breakpoints
                    &&& final(self).active == old(self).active
                },
                Err(k) => {
                    &&& *final(self) == *old(self)
                    &&& match old(self).lookup_err(*session_id) {
                        Some(g) => k == g,
                        None => k == ErrorKind::NotFound && !crate::threads::has_thread(
                            old(self).sessions@[old(self).session_index_of(
                                old(self).spec_resolved(*session_id).unwrap(),
                            )].threads@,
                            thread_id,
                        ),
                    }
                },
            },
    {
        let (_sid, i) = match self.lookup_session(session_id) {
            Ok(p) => p,
            Err(k) => {
                return Err(k);
            },
        };
        if crate::threads::find_thread(&self.sessions[i].threads, thread_id).is_none() {
            return Err(ErrorKind::NotFound);
        }
        let st = &mut self.sessions[i];
        st.selected_thread = Some(thread_id);
        st.selected_frame = 0;
        proof {
            self.session_updated(*old(self), i as int);
        }
        Ok(())
    }

    /// Select the session's current frame. The selected thread must be
    /// suspended: frame positions only exist on a suspended thread.
    pub fn select_frame(&mut self, session_id: &Option<String>, frame_index: i32) -> (r: Result<
        (),
        ErrorKind,
    >)
        requires
            old(self).wf(),
        ensures
            final(self).wf(),
            match r {
                Ok(()) => {
                    let i = old(self).session_index_of(
                        old(self).spec_resolved(*session_id).unwrap(),
                    );
                    &&& old(self).lookup_err(*session_id).is_none()
                    &&& frame_index >= 0
                    &&& final(self).sessions@ == old(self).sessions@.update(
                        i,
                        SessionState {
                            selected_frame: frame_index,
                            ..old(self).sessions@[i]
                        },
                    )
                    &&& final(self).breakpoints == old(self).breakpoints
                    &&& final(self).exception_breakpoints == old(self).exception_breakpoints
                    &&& final(self).active == old(self).active
                },
                Err(k) => {
                    &&& *final(self) == *old(self)
                    &&& match old(self).lookup_err(*session_id) {
                        Some(g) => k == g,
                        None => {
                            let i = old(self).session_index_of(
                                old(self).spec_resolved(*session_id).unwrap(),
                            );
                            if frame_index < 0 {
                                k == ErrorKind::NotFound
                            } else {
                                match old(self).sessions@[i].selected_thread {
                                    None => k == ErrorKind::NotFound,
                                    Some(tid) => if !crate::threads::has_thread(
                                        old(self).sessions@[i].threads@,
                                        tid,
                                    ) {
                                        k == ErrorKind::NotFound
                                    } else {
                                        k == ErrorKind::ThreadNotSuspended && !old(
                                            self,
                                        ).sessions@[i].threads@[crate::threads::thread_at(
                                            old(self).sessions@[i].threads@,
                                            tid,
                                        )].suspended
                                    },
                                }
                            }
                        },
                    }
                },
            },
    {
        let (_sid, i) = match self.lookup_session(session_id) {
            Ok(p) => p,
            Err(k) => {
                return Err(k);
            },
        };
        if frame_index < 0 {
            return Err(ErrorKind::NotFound);
        }
        let tid: i64 = match self.sessions[i].selected_thread {
            Some(t) => t,
            None => {
                return Err(ErrorKind::NotFound);
            },
        };
        let j = match crate::threads::find_thread(&self.sessions[i].threads, tid) {
            Some(j) => j,
            None => {
                return Err(ErrorKind::NotFound);
            },
        };
        proof {
            crate::threads::lemma_thread_at_found(self.sessions@[i as int].threads@, j as int);
        }
        if !self.sessions[i].threads[j].suspended {
            return Err(ErrorKind::ThreadNotSuspended);
        }
        let st = &mut self.sessions[i];
        st.selected_frame = frame_index;
        proof {
            self.session_updated(*old(self), i as int);
        }
        Ok(())
    }

    /// The threads of one session, as the core tracks them.
    pub fn list_threads(&self, session_id: &Option<String>) -> (r: Result<
        Vec<ThreadInfo>,
        ErrorKind,
    >)
        requires
            self.wf(),
        ensures
            match r {
                Ok(ts) => {
                    &&& self.lookup_err(*session_id).is_none()
                    &&& ts@ == self.sessions@[self.session_index_of(
                        self.spec_resolved(*session_id).unwrap(),
                    )].threads@
                },
                Err(k) => self.lookup_err(*session_id) == Some(k),
            },
    {
        let (_sid, i) = match self.lookup_session(session_id) {
            Ok(p) => p,
            Err(k) => {
                return Err(k);
            },
        };
        Ok(crate::threads::clone_threads(&self.sessions[i].threads))
    }

    /// Validate a frame or variable read: resolve the session and the
    /// thread — the given one, or the selected one — and demand that
    /// the thread is suspended. The service layer then forwards the
    /// read to the bridge. Pure reads fail with `ThreadNotSuspended`
    /// against a running thread.
    pub fn resolve_suspended_thread(
        &self,
        session_id: &Option<String>,
        thread_id: &Option<i64>,
    ) -> (r: Result<i64, ErrorKind>)
        requires
            self.wf(),
        ensures
            match r {
                Ok(tid) => {
                    let i = self.session_index_of(self.spec_resolved(*session_id).unwrap());
                    &&& self.gate_err(*session_id).is_none()
                    &&& Some(tid) == Self::spec_target_thread(self.sessions@[i], *thread_id)
                    &&& crate::threads::has_thread(self.sessions@[i].threads@, tid)
                    &&& self.sessions@[i].threads@[crate::threads::thread_at(
                        self.sessions@[i].threads@,
                        tid,
                    )].suspended
                },
                Err(k) => match self.gate_err(*session_id) {
                    Some(g) => k == g,
                    None => {
                        let i = self.session_index_of(self.spec_resolved(*session_id).unwrap());
                        match Self::spec_target_thread(self.sessions@[i], *thread_id) {
                            None => k == ErrorKind::NotFound,
                            Some(tid) => if !crate::threads::has_thread(
                                self.sessions@[i].threads@,
                                tid,
                            ) {
                                k == ErrorKind::NotFound
                            } else {
                                k == ErrorKind::ThreadNotSuspended && !self.sessions@[i].threads@[crate::threads::thread_at(
                                    self.sessions@[i].threads@,
                                    tid,
                                )].suspended
                            },
                        }
                    },
                },
            },
    {
        let (_sid, i) = match self.check_attached(session_id) {
            Ok(p) => p,
            Err(k) => {
                return Err(k);
            },
        };
        let tid: i64 = match thread_id {
            Some(t) => *t,
            None => {
                match self.sessions[i].selected_thread {
                    Some(t) => t,
                    None => {
                        return Err(ErrorKind::NotFound);
                    },
                }
            },
        };
        let j = match crate::threads::find_thread(&self.sessions[i].threads, tid) {
            Some(j) => j,
            None => {
                return Err(ErrorKind::NotFound);
            },
        };
        proof {
            crate::threads::lemma_thread_at_found(self.sessions@[i as int].threads@, j as int);
        }
        if !self.sessions[i].threads[j].suspended {
            return Err(ErrorKind::ThreadNotSuspended);
        }
        Ok(tid)
    }

    /// Ingest one raw event from the bridge into a session's buffer,
    /// returning the sequence number it was assigned. Ingestion is
    /// what orders events: every read path delivers them in this
    /// order.
    pub fn ingest_event(
        &mut self,
        session_id: &String,
        details: EventDetails,
        timestamp: i64,
    ) -> (r: Result<u64, ErrorKind>)
        requires
            old(self).wf(),
            forall|i: int|
                0 <= i < old(self).sessions@.len() ==> (#[trigger] old(
                    self,
                ).sessions@[i]).events@.next_seq < u64::MAX,
        ensures
            final(self).wf(),
            match r {
                Ok(seq) => {
                    let i = old(self).session_index_of(session_id@);
                    &&& old(self).has_session(session_id@)
                    &&& seq == old(self).sessions@[i].events@.next_seq
                    &&& final(self).sessions@ == old(self).sessions@.update(
                        i,
                        SessionState {
                            events: final(self).sessions@[i].events,
                            ..old(self).sessions@[i]
                        },
                    )
                    &&& final(self).sessions@[i].events@ == crate::buffer::push_model(
                        old(self).sessions@[i].events@,
                        details,
                        timestamp,
                    )
                    &&& final(self).breakpoints == old(self).breakpoints
                    &&& final(self).exception_breakpoints == old(self).exception_breakpoints
                    &&& final(self).active == old(self).active
                },
                Err(k) => {
                    &&& *final(self) == *old(self)
                    &&& k == ErrorKind::NotFound
                    &&& !old(self).has_session(session_id@)
                },
            },
    {
        let i = match self.find_session(session_id) {
            Some(i) => i,
            None => {
                return Err(ErrorKind::NotFound);
            },
        };
        let st = &mut self.sessions[i];
        let seq = st.events.next_seq;
        st.events.push(details, timestamp);
        proof {
            self.session_updated(*old(self), i as int);
        }
        Ok(seq)
    }

    /// A hit notification from the bridge. If the breakpoint still
    /// exists and its session is registered, its hit count goes up by
    /// exactly one, the hit joins the session's event buffer, and the
    /// hitting thread stands suspended at the breakpoint; the call
    /// reports the owning session. A notification for a breakpoint
    /// that was removed — or whose session is gone — is discarded:
    /// redelivery is harmless.
    pub fn on_breakpoint_hit(
        &mut self,
        bp_id: u64,
        thread_id: i64,
        location: &SourceLocation,
        timestamp: i64,
    ) -> (r: Option<String>)
        requires
            old(self).wf(),
            forall|i: int|
                0 <= i < old(self).sessions@.len() ==> (#[trigger] old(
                    self,
                ).sessions@[i]).events@.next_seq < u64::MAX,
            forall|i: int|
                0 <= i < old(self).breakpoints@.len() && old(self).breakpoints@[i].id == bp_id
                    ==> (#[trigger] old(self).breakpoints@[i]).hit_count < u64::MAX,
        ensures
            final(self).wf(),
            match r {
                Some(sid) => {
                    let b = old(self).breakpoints@[crate::breakpoints::bp_index_of(
                        old(self).breakpoints@,
                        bp_id,
                    )];
                    let i = old(self).session_index_of(sid@);
                    &&& exists|k: int|
                        0 <= k < old(self).breakpoints@.len() && (#[trigger] old(
                            self,
                        ).breakpoints@[k]).id == bp_id
                    &&& sid@ == b.session_id@
                    &&& old(self).has_session(sid@)
                    &&& final(self).breakpoints@ == crate::breakpoints::bump_hit(
                        old(self).breakpoints@,
                        bp_id,
                    )
                    &&& final(self).sessions@ == old(self).sessions@.update(
                        i,
                        SessionState {
                            threads: final(self).sessions@[i].threads,
                            events: final(self).sessions@[i].events,
                            ..old(self).sessions@[i]
                        },
                    )
                    &&& final(self).sessions@[i].events@ == crate::buffer::push_model(
                        old(self).sessions@[i].events@,
                        EventDetails::BreakpointHit {
                            breakpoint_id: bp_id,
                            thread_id,
                            location: *location,
                        },
                        timestamp,
                    )
                    &&& final(self).sessions@[i].threads@ == crate::threads::set_thread_status(
                        old(self).sessions@[i].threads@,
                        thread_id,
                        ThreadStatus::SuspendedAtBreakpoint,
                    )
                    &&& final(self).exception_breakpoints == old(self).exception_breakpoints
                    &&& final(self).active == old(self).active
                },
                None => {
                    &&& *final(self) == *old(self)
                    &&& ((forall|k: int|
                        0 <= k < old(self).breakpoints@.len() ==> (#[trigger] old(
                            self,
                        ).breakpoints@[k]).id != bp_id) || !old(self).has_session(
                        old(self).breakpoints@[crate::breakpoints::bp_index_of(
                            old(self).breakpoints@,
                            bp_id,
                        )].session_id@,
                    ))
                },
            },
    {
        let bi = match crate::breakpoints::find_breakpoint(&self.breakpoints, bp_id) {
            Some(bi) => bi,
            None => {
                return None;
            },
        };
        let sid = self.breakpoints[bi].session_id.clone();
        let i = match self.find_session(&sid) {
            Some(i) => i,
            None => {
                proof {
                    crate::breakpoints::lemma_bp_index_found(self.breakpoints@, bi as int);
                }
                return None;
            },
        };
        proof {
            crate::breakpoints::lemma_bp_index_found(self.breakpoints@, bi as int);
        }
        self.breakpoints = crate::breakpoints::bump_hit_by_id(&self.breakpoints, bp_id);
        let details = EventDetails::BreakpointHit {
            breakpoint_id: bp_id,
            thread_id,
            location: location.clone(),
        };
        let new_threads = crate::threads::set_status_by_id(
            &self.sessions[i].threads,
            thread_id,
            ThreadStatus::SuspendedAtBreakpoint,
        );
        let st = &mut self.sessions[i];
        st.threads = new_threads;
        st.events.push(details, timestamp);
        proof {
            crate::breakpoints::lemma_bump_hit_shape(old(self).breakpoints@, bp_id);
            assert forall|a: int, b: int|
                0 <= a < b < self.breakpoints@.len() implies self.breakpoints@[a].id
                != self.breakpoints@[b].id by {
                assert(old(self).breakpoints@[a].id != old(self).breakpoints@[b].id);
            }
            crate::threads::lemma_set_thread_status_wf(
                old(self).sessions@[i as int].threads@,
                thread_id,
                ThreadStatus::SuspendedAtBreakpoint,
            );
            self.session_updated(*old(self), i as int);
        }
        Some(sid)
    }

    /// A thread-start notification: the thread joins the session's
    /// tracked list as running — unless its id is already tracked, in
    /// which case the list is untouched — and the start joins the
    /// event buffer.
    pub fn on_thread_start(
        &mut self,
        session_id: &String,
        thread_id: i64,
        thread_name: &String,
        timestamp: i64,
    ) -> (r: Result<(), ErrorKind>)
        requires
            old(self).wf(),
            forall|i: int|
                0 <= i < old(self).sessions@.len() ==> (#[trigger] old(
                    self,
                ).sessions@[i]).events@.next_seq < u64::MAX,
        ensures
            final(self).wf(),
            match r {
                Ok(()) => {
                    let i = old(self).session_index_of(session_id@);
                    let ts = old(self).sessions@[i].threads@;
                    &&& old(self).has_session(session_id@)
                    &&& final(self).sessions@ == old(self).sessions@.update(
                        i,
                        SessionState {
                            threads: final(self).sessions@[i].threads,
                            events: final(self).sessions@[i].events,
                            ..old(self).sessions@[i]
                        },
                    )
                    &&& final(self).sessions@[i].threads@ == if crate::threads::has_thread(
                        ts,
                        thread_id,
                    ) {
                        ts
                    } else {
                        ts.push(
                            ThreadInfo {
                                id: thread_id,
                                name: *thread_name,
                                status: ThreadStatus::Running,
                                suspended: false,
                            },
                        )
                    }
                    &&& final(self).sessions@[i].events@ == crate::buffer::push_model(
                        old(self).sessions@[i].events@,
                        EventDetails::ThreadStart { thread_id, thread_name: *thread_name },
                        timestamp,
                    )
                    &&& final(self).breakpoints == old(self).breakpoints
                    &&& final(self).exception_breakpoints == old(self).exception_breakpoints
                    &&& final(self).active == old(self).active
                },
                Err(k) => {
                    &&& *final(self) == *old(self)
                    &&& k == ErrorKind::NotFound
                    &&& !old(self).has_session(session_id@)
                },
            },
    {
        let i = match self.find_session(session_id) {
            Some(i) => i,
            None => {
                return Err(ErrorKind::NotFound);
            },
        };
        let known = crate::threads::find_thread(&self.sessions[i].threads, thread_id).is_some();
        let details = EventDetails::ThreadStart {
            thread_id,
            thread_name: thread_name.clone(),
        };
        let st = &mut self.sessions[i];
        if !known {
            let t = ThreadInfo::new(thread_id, thread_name.clone(), ThreadStatus::Running);
            st.threads.push(t);
        }
        st.events.push(details, timestamp);
        proof {
            if !known {
                let olds = old(self).sessions@[i as int].threads@;
                let news = self.sessions@[i as int].threads@;
                assert(news.drop_last() =~= olds);
                assert forall|k: int, l: int|
                    0 <= k < l < news.len() implies news[k].id != news[l].id by {
                    if l == news.len() - 1 {
                        assert(olds[k].id != thread_id);
                    }
                }
            }
            self.session_updated(*old(self), i as int);
        }
        Ok(())
    }

    /// A thread-death notification: the thread leaves the session's
    /// tracked list and the death joins the event buffer.
    pub fn on_thread_death(
        &mut self,
        session_id: &String,
        thread_id: i64,
        thread_name: &String,
        timestamp: i64,
    ) -> (r: Result<(), ErrorKind>)
        requires
            old(self).wf(),
            forall|i: int|
                0 <= i < old(self).sessions@.len() ==> (#[trigger] old(
                    self,
                ).sessions@[i]).events@.next_seq < u64::MAX,
        ensures
            final(self).wf(),
            match r {
                Ok(()) => {
                    let i = old(self).session_index_of(session_id@);
                    &&& old(self).has_session(session_id@)
                    &&& final(self).sessions@ == old(self).sessions@.update(
                        i,
                        SessionState {
                            threads: final(self).sessions@[i].threads,
                            events: final(self).sessions@[i].events,
                            ..old(self).sessions@[i]
                        },
                    )
                    &&& final(self).sessions@[i].threads@ == crate::threads::remove_thread(
                        old(self).sessions@[i].threads@,
                        thread_id,
                    )
                    &&& final(self).sessions@[i].events@ == crate::buffer::push_model(
                        old(self).sessions@[i].events@,
                        EventDetails::ThreadDeath { thread_id, thread_name: *thread_name },
                        timestamp,
                    )
                    &&& final(self).breakpoints == old(self).breakpoints
                    &&& final(self).exception_breakpoints == old(self).exception_breakpoints
                    &&& final(self).active == old(self).active
                },
                Err(k) => {
                    &&& *final(self) == *old(self)
                    &&& k == ErrorKind::NotFound
                    &&& !old(self).has_session(session_id@)
                },
            },
    {
        let i = match self.find_session(session_id) {
            Some(i) => i,
            None => {
                return Err(ErrorKind::NotFound);
            },
        };
        let new_threads = crate::threads::remove_thread_by_id(
            &self.sessions[i].threads,
            thread_id,
        );
        let details = EventDetails::ThreadDeath {
            thread_id,
            thread_name: thread_name.clone(),
        };
        let st = &mut self.sessions[i];
        st.threads = new_threads;
        st.events.push(details, timestamp);
        proof {
            crate::threads::lemma_remove_thread_wf(
                old(self).sessions@[i as int].threads@,
                thread_id,
            );
            self.session_updated(*old(self), i as int);
        }
        Ok(())
    }

    /// The bridge connection of one session is gone: the session is
    /// marked and every operation on it that needs the bridge fails
    /// with `BridgeUnavailable` until it is detached. Other sessions
    /// are untouched.
    pub fn mark_bridge_lost(&mut self, session_id: &String) -> (r: Result<(), ErrorKind>)
        requires
            old(self).wf(),
        ensures
            final(self).wf(),
            match r {
                Ok(()) => {
                    let i = old(self).session_index_of(session_id@);
                    &&& old(self).has_session(session_id@)
                    &&& final(self).sessions@ == old(self).sessions@.update(
                        i,
                        SessionState {
                            session: Session {
                                state: ConnState::Error,
                                ..old(self).sessions@[i].session
                            },
                            ..old(self).sessions@[i]
                        },
                    )
                    &&& final(self).breakpoints == old(self).breakpoints
                    &&& final(self).exception_breakpoints == old(self).exception_breakpoints
                    &&& final(self).active == old(self).active
                },
                Err(k) => {
                    &&& *final(self) == *old(self)
                    &&& k == ErrorKind::NotFound
                    &&& !old(self).has_session(session_id@)
                },
            },
    {
        let i = match self.find_session(session_id) {
            Some(i) => i,
            None => {
                return Err(ErrorKind::NotFound);
            },
        };
        let st = &mut self.sessions[i];
        st.session.state = ConnState::Error;
        proof {
            self.session_updated(*old(self), i as int);
        }
        Ok(())
    }

    /// A snapshot read of one session's buffer: up to `limit` events
    /// matching the filter (zero meaning no bound), in sequence order,
    /// without removing them, plus how many matching events beyond the
    /// limit remain.
    pub fn poll_events(
        &self,
        session_id: &Option<String>,
        limit: usize,
        filter: &Vec<EventKind>,
    ) -> (r: Result<(Vec<DebugEvent>, usize), ErrorKind>)
        requires
            self.wf(),
        ensures
            match r {
                Ok((evs, remaining)) => {
                    let buf = self.sessions@[self.session_index_of(
                        self.spec_resolved(*session_id).unwrap(),
                    )].events@;
                    &&& self.lookup_err(*session_id).is_none()
                    &&& evs@ == crate::buffer::poll_window(
                        crate::buffer::filtered(buf.events, filter@),
                        limit as int,
                    )
                    &&& remaining == crate::buffer::filtered(buf.events, filter@).len()
                        - evs@.len()
                },
                Err(k) => self.lookup_err(*session_id) == Some(k),
            },
    {
        let (_sid, i) = match self.lookup_session(session_id) {
            Ok(p) => p,
            Err(k) => {
                return Err(k);
            },
        };
        Ok(self.sessions[i].events.poll(limit, filter))
    }

    /// The read behind wait: every buffered event of the session that
    /// matches the filter, from the caller's cursor onward. A caller
    /// that has seen everything passes the next sequence number and
    /// gets an empty result back; the service layer sleeps and
    /// retries until its deadline, and hands back empty on timeout
    /// rather than an error.
    pub fn wait_events(
        &self,
        session_id: &Option<String>,
        from_seq: u64,
        filter: &Vec<EventKind>,
    ) -> (r: Result<Vec<DebugEvent>, ErrorKind>)
        requires
            self.wf(),
        ensures
            match r {
                Ok(evs) => {
                    let buf = self.sessions@[self.session_index_of(
                        self.spec_resolved(*session_id).unwrap(),
                    )].events@;
                    &&& self.lookup_err(*session_id).is_none()
                    &&& evs@ == crate::buffer::newer(
                        crate::buffer::filtered(buf.events, filter@),
                        from_seq as int - 1,
                    )
                },
                Err(k) => self.lookup_err(*session_id) == Some(k),
            },
    {
        let (_sid, i) = match self.lookup_session(session_id) {
            Ok(p) => p,
            Err(k) => {
                return Err(k);
            },
        };
        Ok(self.sessions[i].events.events_matching_from(from_seq, filter))
    }

    /// The sequence number the session's next event will get; a wait
    /// caller starts its cursor just below this.
    pub fn next_event_seq(&self, session_id: &Option<String>) -> (r: Result<u64, ErrorKind>)
        requires
            self.wf(),
        ensures
            match r {
                Ok(seq) => {
                    &&& self.lookup_err(*session_id).is_none()
                    &&& seq == self.sessions@[self.session_index_of(
                        self.spec_resolved(*session_id).unwrap(),
                    )].events@.next_seq
                },
                Err(k) => self.lookup_err(*session_id) == Some(k),
            },
    {
        let (_sid, i) = match self.lookup_session(session_id) {
            Ok(p) => p,
            Err(k) => {
                return Err(k);
            },
        };
        Ok(self.sessions[i].events.next_seq)
    }

    /// Empty one session's buffer and reset its dropped counter,
    /// without touching the sequence counter: later events continue
    /// the same numbering.
    pub fn clear_events(&mut self, session_id: &Option<String>) -> (r: Result<String, ErrorKind>)
        requires
            old(self).wf(),
        ensures
            final(self).wf(),
            match r {
                Ok(sid) => {
                    let i = old(self).session_index_of(sid@);
                    &&& old(self).lookup_err(*session_id).is_none()
                    &&& Some(sid@) == old(self).spec_resolved(*session_id)
                    &&& final(self).sessions@ == old(self).sessions@.update(
                        i,
                        SessionState {
                            events: final(self).sessions@[i].events,
                            ..old(self).sessions@[i]
                        },
                    )
                    &&& final(self).sessions@[i].events@.events.len() == 0
                    &&& final(self).sessions@[i].events@.dropped == 0
                    &&& final(self).sessions@[i].events@.next_seq == old(
                        self,
                    ).sessions@[i].events@.next_seq
                    &&& final(self).sessions@[i].events@.capacity == old(
                        self,
                    ).sessions@[i].events@.capacity
                    &&& final(self).breakpoints == old(self).breakpoints
                    &&& final(self).exception_breakpoints == old(self).exception_breakpoints
                    &&& final(self).active == old(self).active
                },
                Err(k) => {
                    &&& *final(self) == *old(self)
                    &&& old(self).lookup_err(*session_id) == Some(k)
                },
            },
    {
        let (sid, i) = match self.lookup_session(session_id) {
            Ok(p) => p,
            Err(k) => {
                return Err(k);
            },
        };
        let st = &mut self.sessions[i];
        st.events.clear();
        proof {
            self.session_updated(*old(self), i as int);
        }
        Ok(sid)
    }

    /// The buffer summary of one session: retained count, capacity,
    /// whether anything was dropped since the last clear, and the
    /// timestamps of the oldest and newest retained event.
    pub fn event_info(&self, session_id: &Option<String>) -> (r: Result<EventInfo, ErrorKind>)
        requires
            self.wf(),
        ensures
            match r {
                Ok(info) => {
                    let buf = self.sessions@[self.session_index_of(
                        self.spec_resolved(*session_id).unwrap(),
                    )].events@;
                    &&& self.lookup_err(*session_id).is_none()
                    &&& info.buffered_count == buf.events.len()
                    &&& info.buffer_capacity == buf.capacity
                    &&& info.events_dropped == (buf.dropped > 0)
                    &&& info.dropped_count == buf.dropped
                    &&& info.oldest_timestamp == if buf.events.len() == 0 {
                        0i64
                    } else {
                        buf.events[0].timestamp
                    }
                    &&& info.newest_timestamp == if buf.events.len() == 0 {
                        0i64
                    } else {
                        buf.events.last().timestamp
                    }
                },
                Err(k) => self.lookup_err(*session_id) == Some(k),
            },
    {
        let (_sid, i) = match self.lookup_session(session_id) {
            Ok(p) => p,
            Err(k) => {
                return Err(k);
            },
        };
        Ok(self.sessions[i].events.info())
    }

    /// Open a subscription on one session: a cursor that starts at the
    /// next sequence number, so the stream delivers every event from
    /// this moment onward, in order, and nothing earlier.
    pub fn subscribe(&self, session_id: &Option<String>) -> (r: Result<Subscription, ErrorKind>)
        requires
            self.wf(),
        ensures
            match r {
                Ok(sub) => {
                    &&& self.lookup_err(*session_id).is_none()
                    &&& Some(sub.session_id@) == self.spec_resolved(*session_id)
                    &&& sub.cursor == self.sessions@[self.session_index_of(
                        sub.session_id@,
                    )].events@.next_seq
                },
                Err(k) => self.lookup_err(*session_id) == Some(k),
            },
    {
        let (sid, i) = match self.lookup_session(session_id) {
            Ok(p) => p,
            Err(k) => {
                return Err(k);
            },
        };
        let cursor = self.sessions[i].events.next_seq;
        Ok(Subscription { session_id: sid, cursor })
    }

    /// Drain a subscription: every buffered event at or past the
    /// cursor, in order, and the cursor moves past everything
    /// delivered. When the session is gone — detached while the
    /// stream was open — the read fails with `NotFound` and the
    /// service layer closes the stream.
    pub fn subscription_poll(&self, sub: &mut Subscription) -> (r: Result<
        Vec<DebugEvent>,
        ErrorKind,
    >)
        requires
            self.wf(),
        ensures
            final(sub).session_id == old(sub).session_id,
            match r {
                Ok(evs) => {
                    let buf = self.sessions@[self.session_index_of(
                        old(sub).session_id@,
                    )].events@;
                    &&& self.has_session(old(sub).session_id@)
                    &&& evs@ == crate::buffer::newer(buf.events, old(sub).cursor as int - 1)
                    &&& final(sub).cursor == buf.next_seq
                },
                Err(k) => {
                    &&& k == ErrorKind::NotFound
                    &&& !self.has_session(old(sub).session_id@)
                    &&& final(sub).cursor == old(sub).cursor
                },
            },
    {
        let i = match self.find_session(&sub.session_id) {
            Some(i) => i,
            None => {
                return Err(ErrorKind::NotFound);
            },
        };
        let out = self.sessions[i].events.events_from(sub.cursor);
        sub.cursor = self.sessions[i].events.next_seq;
        Ok(out)
    }

    /// Select the active session.
    pub fn set_active(&mut self, session_id: &String) -> (r: Result<(), ErrorKind>)
        requires
            old(self).wf(),
        ensures
            final(self).wf(),
            match r {
                Ok(()) => {
                    &&& old(self).has_session(session_id@)
                    &&& final(self).active_id() == Some(session_id@)
                    &&& final(self).sessions == old(self).sessions
                    &&& final(self).breakpoints == old(self).breakpoints
                    &&& final(self).exception_breakpoints == old(self).exception_breakpoints
                },
                Err(k) => {
                    &&& k == ErrorKind::NotFound
                    &&& !old(self).has_session(session_id@)
                    &&& *final(self) == *old(self)
                },
            },
    {
        match self.find_session(session_id) {
            Some(_) => {
                self.active = Some(session_id.clone());
                Ok(())
            },
            None => Err(ErrorKind::NotFound),
        }
    }
}

/// The active pointer after a session is removed: cleared if it named
/// that session, untouched otherwise; no session becomes active
/// automatically.
pub open spec fn spec_active_after_removal(active: Option<String>, sid: Seq<char>) -> Option<
    String,
> {
    match active {
        Some(a) => if a@ == sid {
            None
        } else {
            Some(a)
        },
        None => None,
    }
}

/// The three read paths of one session agree. Over the session's
/// buffer: what poll returns, what wait returns from any cursor, and
/// what a subscription delivers from any cursor each come in strictly
/// increasing sequence order; the wait view is exactly the filtered
/// subscription view over the window they share; and with no type
/// filter the two are the same events.
pub proof fn lemma_session_read_modes_agree(
    core: DebugCore,
    sid: Seq<char>,
    last_seen: int,
    filter: Seq<EventKind>,
)
    requires
        core.wf(),
        core.has_session(sid),
    ensures
        crate::buffer::strictly_increasing(
            crate::buffer::filtered(
                core.sessions@[core.session_index_of(sid)].events@.events,
                filter,
            ),
        ),
        crate::buffer::strictly_increasing(
            crate::buffer::newer(
                crate::buffer::filtered(
                    core.sessions@[core.session_index_of(sid)].events@.events,
                    filter,
                ),
                last_seen,
            ),
        ),
        crate::buffer::strictly_increasing(
            crate::buffer::newer(
                core.sessions@[core.session_index_of(sid)].events@.events,
                last_seen,
            ),
        ),
        crate::buffer::newer(
            crate::buffer::filtered(
                core.sessions@[core.session_index_of(sid)].events@.events,
                filter,
            ),
            last_seen,
        ) == crate::buffer::filtered(
            crate::buffer::newer(
                core.sessions@[core.session_index_of(sid)].events@.events,
                last_seen,
            ),
            filter,
        ),
{
    let i = core.session_index_of(sid);
    assert(0 <= i < core.sessions@.len() && core.sessions@[i].session.id@ == sid);
    assert(core.sessions@[i].wf());
    let buf = core.sessions@[i].events@;
    assert(crate::buffer::strictly_increasing(buf.events));
    crate::buffer::lemma_read_modes_agree(buf.events, last_seen, filter);
}

/// Detaching a session cascades. After a detach of `sid` — which
/// leaves a state where `sid` is no longer registered and the
/// session's catalog entries are removed — any later lookup naming
/// that id fails with `NotFound`; by their contracts, that is exactly
/// the error the breakpoint listing, thread listing, event poll and
/// wait, and event-info calls then return. And nothing of the session
/// survives in either catalog: its breakpoint and exception-breakpoint
/// listings are empty even before the lookup fails.
pub proof fn lemma_detach_cascades(
    pre: DebugCore,
    post: DebugCore,
    sid: Seq<char>,
    request: Option<String>,
)
    requires
        !post.has_session(sid),
        post.breakpoints@ == crate::breakpoints::remove_session(pre.breakpoints@, sid),
        post.exception_breakpoints@ == crate::breakpoints::ex_remove_session(
            pre.exception_breakpoints@,
            sid,
        ),
        request matches Some(s) && s@ == sid && s@.len() > 0,
    ensures
        post.lookup_err(request) == Some(ErrorKind::NotFound),
        post.gate_err(request) == Some(ErrorKind::NotFound),
        crate::breakpoints::owned_by(post.breakpoints@, sid) == Seq::<Breakpoint>::empty(),
        crate::breakpoints::ex_owned_by(post.exception_breakpoints@, sid) == Seq::<
            ExceptionBreakpoint,
        >::empty(),
{
    crate::breakpoints::lemma_remove_session_owns_nothing(pre.breakpoints@, sid);
    crate::breakpoints::lemma_ex_remove_session_owns_nothing(pre.exception_breakpoints@, sid);
}

/// Replacing one session's entry with a well-formed one that keeps its
/// id preserves the registry's well-formedness and every session id.
pub proof fn lemma_update_session_wf(olds: Seq<SessionState>, news: Seq<SessionState>, i: int)
    requires
        session_ids_unique(olds),
        forall|k: int| 0 <= k < olds.len() ==> (#[trigger] olds[k]).wf(),
        0 <= i < olds.len(),
        news == olds.update(i, news[i]),
        news[i].session.id@ == olds[i].session.id@,
        news[i].wf(),
    ensures
        session_ids_unique(news),
        forall|k: int| 0 <= k < news.len() ==> (#[trigger] news[k]).wf(),
        news.len() == olds.len(),
        forall|k: int|
            0 <= k < news.len() ==> (#[trigger] news[k]).session.id@ == olds[k].session.id@,
{
    assert forall|a: int, b: int|
        0 <= a < b < news.len() implies news[a].session.id@ != news[b].session.id@ by {
        assert(olds[a].session.id@ != olds[b].session.id@);
    }
    assert forall|k: int| 0 <= k < news.len() implies (#[trigger] news[k]).wf() by {
        if k != i {
            assert(news[k] == olds[k]);
        }
    }
}

/// Replacing one session's entry with one that keeps its id preserves
/// the uniqueness of session ids.
pub proof fn lemma_unique_after_update(olds: Seq<SessionState>, news: Seq<SessionState>, i: int)
    requires
        session_ids_unique(olds),
        news.len() == olds.len(),
        0 <= i < olds.len(),
        news == olds.update(i, news[i]),
        news[i].session.id@ == olds[i].session.id@,
    ensures
        session_ids_unique(news),
{
    assert forall|a: int, b: int|
        0 <= a < b < news.len() implies news[a].session.id@ != news[b].session.id@ by {
        assert(olds[a].session.id@ != olds[b].session.id@);
    }
}

} // verus!
