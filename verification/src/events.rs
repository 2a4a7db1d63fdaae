//! Debug events: the tagged payloads the runtime bridge reports, the
//! per-event sequence number and timestamp, and the type filter used by
//! the poll and wait read paths.

use vstd::prelude::*;

verus! {

/// The tag of a debug event payload.
#[derive(Clone, Copy, Debug, PartialEq, Eq, Structural)]
pub enum EventKind {
    BreakpointHit,
    StepCompleted,
    Exception,
    ThreadStart,
    ThreadDeath,
    VmDeath,
    VmDisconnect,
}

/// A source position reported with a breakpoint hit or a completed step.
#[derive(Debug)]
pub struct SourceLocation {
    pub class_name: String,
    pub method_name: String,
    pub source_name: String,
    pub line_number: i32,
}

impl Clone for SourceLocation {
    fn clone(&self) -> (res: Self)
        ensures
            res == *self,
    {
        SourceLocation {
            class_name: self.class_name.clone(),
            method_name: self.method_name.clone(),
            source_name: self.source_name.clone(),
            line_number: self.line_number,
        }
    }
}

/// The payload of one debug event.
#[derive(Debug)]
pub enum EventDetails {
    BreakpointHit { breakpoint_id: u64, thread_id: i64, location: SourceLocation },
    StepCompleted { thread_id: i64, location: SourceLocation },
    Exception { thread_id: i64, exception_class: String, message: String },
    ThreadStart { thread_id: i64, thread_name: String },
    ThreadDeath { thread_id: i64, thread_name: String },
    VmDeath { exit_code: i32 },
    VmDisconnect { reason: String },
}

impl Clone for EventDetails {
    fn clone(&self) -> (res: Self)
        ensures
            res == *self,
    {
        match self {
            EventDetails::BreakpointHit { breakpoint_id, thread_id, location } => {
                EventDetails::BreakpointHit {
                    breakpoint_id: *breakpoint_id,
                    thread_id: *thread_id,
                    location: location.clone(),
                }
            },
            EventDetails::StepCompleted { thread_id, location } => {
                EventDetails::StepCompleted { thread_id: *thread_id, location: location.clone() }
            },
            EventDetails::Exception { thread_id, exception_class, message } => {
                EventDetails::Exception {
                    thread_id: *thread_id,
                    exception_class: exception_class.clone(),
                    message: message.clone(),
                }
            },
            EventDetails::ThreadStart { thread_id, thread_name } => {
                EventDetails::ThreadStart {
                    thread_id: *thread_id,
                    thread_name: thread_name.clone(),
                }
            },
            EventDetails::ThreadDeath { thread_id, thread_name } => {
                EventDetails::ThreadDeath {
                    thread_id: *thread_id,
                    thread_name: thread_name.clone(),
                }
            },
            EventDetails::VmDeath { exit_code } => {
                EventDetails::VmDeath { exit_code: *exit_code }
            },
            EventDetails::VmDisconnect { reason } => {
                EventDetails::VmDisconnect { reason: reason.clone() }
            },
        }
    }
}

impl EventDetails {
    /// The tag of this payload.
    pub open spec fn kind(self) -> EventKind {
        match self {
            EventDetails::BreakpointHit { .. } => EventKind::BreakpointHit,
            EventDetails::StepCompleted { .. } => EventKind::StepCompleted,
            EventDetails::Exception { .. } => EventKind::Exception,
            EventDetails::ThreadStart { .. } => EventKind::ThreadStart,
            EventDetails::ThreadDeath { .. } => EventKind::ThreadDeath,
            EventDetails::VmDeath { .. } => EventKind::VmDeath,
            EventDetails::VmDisconnect { .. } => EventKind::VmDisconnect,
        }
    }

    /// Read the tag of this payload.
    pub fn kind_of(&self) -> (k: EventKind)
        ensures
            k == self.kind(),
    {
        match self {
            EventDetails::BreakpointHit { .. } => EventKind::BreakpointHit,
            EventDetails::StepCompleted { .. } => EventKind::StepCompleted,
            EventDetails::Exception { .. } => EventKind::Exception,
            EventDetails::ThreadStart { .. } => EventKind::ThreadStart,
            EventDetails::ThreadDeath { .. } => EventKind::ThreadDeath,
            EventDetails::VmDeath { .. } => EventKind::VmDeath,
            EventDetails::VmDisconnect { .. } => EventKind::VmDisconnect,
        }
    }
}

/// One delivered debug event: a per-session sequence number for
/// ordering and deduplication, a timestamp in milliseconds, and the
/// payload.
#[derive(Debug)]
pub struct DebugEvent {
    pub seq: u64,
    pub timestamp: i64,
    pub details: EventDetails,
}

impl Clone for DebugEvent {
    fn clone(&self) -> (res: Self)
        ensures
            res == *self,
    {
        DebugEvent { seq: self.seq, timestamp: self.timestamp, details: self.details.clone() }
    }
}

/// The wire name of each event kind, as a sequence of characters.
pub open spec fn kind_name_view(k: EventKind) -> Seq<char> {
    match k {
        EventKind::BreakpointHit => "breakpoint_hit"@,
        EventKind::StepCompleted => "step_completed"@,
        EventKind::Exception => "exception"@,
        EventKind::ThreadStart => "thread_start"@,
        EventKind::ThreadDeath => "thread_death"@,
        EventKind::VmDeath => "vm_death"@,
        EventKind::VmDisconnect => "vm_disconnect"@,
    }
}

/// The event kind a wire name denotes, if any.
pub open spec fn spec_parse_kind(s: Seq<char>) -> Option<EventKind> {
    if s == kind_name_view(EventKind::BreakpointHit) {
        Some(EventKind::BreakpointHit)
    } else if s == kind_name_view(EventKind::StepCompleted) {
        Some(EventKind::StepCompleted)
    } else if s == kind_name_view(EventKind::Exception) {
        Some(EventKind::Exception)
    } else if s == kind_name_view(EventKind::ThreadStart) {
        Some(EventKind::ThreadStart)
    } else if s == kind_name_view(EventKind::ThreadDeath) {
        Some(EventKind::ThreadDeath)
    } else if s == kind_name_view(EventKind::VmDeath) {
        Some(EventKind::VmDeath)
    } else if s == kind_name_view(EventKind::VmDisconnect) {
        Some(EventKind::VmDisconnect)
    } else {
        None
    }
}

/// The wire name of an event kind.
pub fn kind_name(k: EventKind) -> (s: String)
    ensures
        s@ == kind_name_view(k),
{
    match k {
        EventKind::BreakpointHit => "breakpoint_hit".to_owned(),
        EventKind::StepCompleted => "step_completed".to_owned(),
        EventKind::Exception => "exception".to_owned(),
        EventKind::ThreadStart => "thread_start".to_owned(),
        EventKind::ThreadDeath => "thread_death".to_owned(),
        EventKind::VmDeath => "vm_death".to_owned(),
        EventKind::VmDisconnect => "vm_disconnect".to_owned(),
    }
}

/// Parse a wire name back into an event kind; unknown names give
/// `None`.
pub fn parse_kind(s: &String) -> (r: Option<EventKind>)
    ensures
        r == spec_parse_kind(s@),
{
    if *s == "breakpoint_hit".to_owned() {
        Some(EventKind::BreakpointHit)
    } else if *s == "step_completed".to_owned() {
        Some(EventKind::StepCompleted)
    } else if *s == "exception".to_owned() {
        Some(EventKind::Exception)
    } else if *s == "thread_start".to_owned() {
        Some(EventKind::ThreadStart)
    } else if *s == "thread_death".to_owned() {
        Some(EventKind::ThreadDeath)
    } else if *s == "vm_death".to_owned() {
        Some(EventKind::VmDeath)
    } else if *s == "vm_disconnect".to_owned() {
        Some(EventKind::VmDisconnect)
    } else {
        None
    }
}

/// Parsing is the inverse of naming: the wire name of a kind parses
/// back to that kind.
pub proof fn lemma_kind_name_round_trip(k: EventKind)
    ensures
        spec_parse_kind(kind_name_view(k)) == Some(k),
{
    reveal_strlit("breakpoint_hit");
    reveal_strlit("step_completed");
    reveal_strlit("exception");
    reveal_strlit("thread_start");
    reveal_strlit("thread_death");
    reveal_strlit("vm_death");
    reveal_strlit("vm_disconnect");
    assert("step_completed"@[0] != "breakpoint_hit"@[0]);
    assert("exception"@.len() != "breakpoint_hit"@.len());
    assert("thread_start"@[0] != "breakpoint_hit"@[0]);
    assert("thread_start"@[7] != "step_completed"@[7]);
    assert("thread_death"@.len() != "breakpoint_hit"@.len());
    assert("thread_death"@[7] != "thread_start"@[7]);
    assert("vm_death"@.len() != "breakpoint_hit"@.len());
    assert("vm_death"@.len() != "exception"@.len());
    assert("vm_death"@.len() != "thread_death"@.len());
    assert("vm_disconnect"@[0] != "breakpoint_hit"@[0]);
    assert("vm_disconnect"@[0] != "step_completed"@[0]);
    assert("vm_disconnect"@.len() != "exception"@.len());
    assert("vm_disconnect"@[0] != "thread_start"@[0]);
    assert("vm_disconnect"@[0] != "thread_death"@[0]);
    assert("vm_disconnect"@.len() != "vm_death"@.len());
}

/// Whether an event passes a type filter; an empty filter admits every
/// event.
pub open spec fn spec_matches_filter(e: DebugEvent, filter: Seq<EventKind>) -> bool {
    filter.len() == 0 || filter.contains(e.details.kind())
}

/// Whether an event passes a type filter.
pub fn matches_filter(e: &DebugEvent, filter: &Vec<EventKind>) -> (r: bool)
    ensures
        r == spec_matches_filter(*e, filter@),
{
    if filter.len() == 0 {
        return true;
    }
    let k = e.details.kind_of();
    let mut i: usize = 0;
    while i < filter.len()
        invariant
            i <= filter@.len(),
            k == e.details.kind(),
            forall|j: int| 0 <= j < i ==> filter@[j] != k,
        decreases filter@.len() - i,
    {
        if filter[i] == k {
            return true;
        }
        i = i + 1;
    }
    false
}

/// The kinds denoted by a list of wire names, in order, with names
/// that denote no kind dropped.
pub open spec fn spec_parse_filter(names: Seq<String>) -> Seq<EventKind>
    decreases names.len(),
{
    if names.len() == 0 {
        Seq::empty()
    } else {
        let rest = spec_parse_filter(names.drop_last());
        match spec_parse_kind(names.last()@) {
            Some(k) => rest.push(k),
            None => rest,
        }
    }
}

/// Translate a list of wire names into a filter, dropping names that
/// denote no kind.
pub fn parse_filter(names: &Vec<String>) -> (r: Vec<EventKind>)
    ensures
        r@ == spec_parse_filter(names@),
{
    let mut r: Vec<EventKind> = Vec::new();
    let mut i: usize = 0;
    while i < names.len()
        invariant
            i <= names@.len(),
            r@ == spec_parse_filter(names@.subrange(0, i as int)),
        decreases names@.len() - i,
    {
        match parse_kind(&names[i]) {
            Some(k) => {
                r.push(k);
            },
            None => {},
        }
        i = i + 1;
        proof {
            let post = names@.subrange(0, i as int);
            assert(post.drop_last() =~= names@.subrange(0, i - 1));
            assert(post.last() == names@[i - 1]);
        }
    }
    proof {
        assert(names@.subrange(0, names@.len() as int) =~= names@);
    }
    r
}

} // verus!
