//! Threads, stack frames, variables, and step requests.
//!
//! A `ThreadInfo` carries both a status and a derived `suspended` flag;
//! the two must always agree, which `ThreadInfo::wf` states and every
//! operation of the core preserves.

use vstd::prelude::*;

verus! {

/// The execution status of one thread of the debuggee.
#[derive(Clone, Copy, Debug, PartialEq, Eq, Structural)]
pub enum ThreadStatus {
    Running,
    Suspended,
    SuspendedAtBreakpoint,
}

/// One thread of the debuggee, as the core tracks it.
#[derive(Debug)]
pub struct ThreadInfo {
    /// Runtime-assigned id, not reused while the session lives.
    pub id: i64,
    pub name: String,
    pub status: ThreadStatus,
    /// Derived view of `status`; true iff the thread is not running.
    pub suspended: bool,
}

impl Clone for ThreadInfo {
    fn clone(&self) -> (res: Self)
        ensures
            res == *self,
    {
        ThreadInfo {
            id: self.id,
            name: self.name.clone(),
            status: self.status,
            suspended: self.suspended,
        }
    }
}

impl ThreadInfo {
    /// The `suspended` flag agrees with `status`.
    pub open spec fn wf(self) -> bool {
        self.suspended <==> (self.status == ThreadStatus::Suspended
            || self.status == ThreadStatus::SuspendedAtBreakpoint)
    }

    /// Build a thread record; the `suspended` flag is derived from the
    /// status, so the result is well-formed by construction.
    pub fn new(id: i64, name: String, status: ThreadStatus) -> (t: ThreadInfo)
        ensures
            t.wf(),
            t.id == id,
            t.name == name,
            t.status == status,
            t == (ThreadInfo {
                id,
                name: t.name,
                status,
                suspended: status == ThreadStatus::Suspended || status
                    == ThreadStatus::SuspendedAtBreakpoint,
            }),
    {
        let suspended = match status {
            ThreadStatus::Running => false,
            ThreadStatus::Suspended => true,
            ThreadStatus::SuspendedAtBreakpoint => true,
        };
        ThreadInfo { id, name, status, suspended }
    }

    /// Replace the status, keeping the derived flag in agreement.
    pub fn set_status(&mut self, status: ThreadStatus)
        ensures
            *final(self) == spec_with_status(*old(self), status),
            final(self).wf(),
    {
        self.status = status;
        self.suspended = match status {
            ThreadStatus::Running => false,
            ThreadStatus::Suspended => true,
            ThreadStatus::SuspendedAtBreakpoint => true,
        };
    }
}

/// One stack activation record; index 0 is the innermost frame.
#[derive(Debug)]
pub struct FrameInfo {
    pub index: i32,
    pub class_name: String,
    pub method_name: String,
    pub source_name: String,
    pub line_number: i32,
    pub is_native: bool,
}

impl Clone for FrameInfo {
    fn clone(&self) -> (res: Self)
        ensures
            res == *self,
    {
        FrameInfo {
            index: self.index,
            class_name: self.class_name.clone(),
            method_name: self.method_name.clone(),
            source_name: self.source_name.clone(),
            line_number: self.line_number,
            is_native: self.is_native,
        }
    }
}

/// What kind of binding a variable is.
#[derive(Clone, Copy, Debug, PartialEq, Eq, Structural)]
pub enum VarKind {
    Local,
    Field,
    StaticField,
    Argument,
}

/// One variable as reported by the runtime bridge.
#[derive(Debug)]
pub struct Variable {
    pub name: String,
    pub var_type: String,
    pub value: String,
    pub kind: VarKind,
}

impl Clone for Variable {
    fn clone(&self) -> (res: Self)
        ensures
            res == *self,
    {
        Variable {
            name: self.name.clone(),
            var_type: self.var_type.clone(),
            value: self.value.clone(),
            kind: self.kind,
        }
    }
}

/// Whether a step descends into, skips over, or exits the current call.
#[derive(Clone, Copy, Debug, PartialEq, Eq, Structural)]
pub enum StepDepth {
    Into,
    Over,
    Out,
}

/// The granularity of a step request.
#[derive(Clone, Copy, Debug, PartialEq, Eq, Structural)]
pub enum StepSize {
    Line,
}

/// A pending step request for one thread of a session.
#[derive(Clone, Copy, Debug, PartialEq, Eq, Structural)]
pub struct StepRequest {
    pub thread_id: i64,
    pub depth: StepDepth,
    pub size: StepSize,
}

/// The suspended threads of a list, kept in their original order.
pub open spec fn suspended_only(ts: Seq<ThreadInfo>) -> Seq<ThreadInfo>
    decreases ts.len(),
{
    if ts.len() == 0 {
        Seq::empty()
    } else {
        let rest = suspended_only(ts.drop_last());
        if ts.last().suspended {
            rest.push(ts.last())
        } else {
            rest
        }
    }
}

/// Whether the list holds a thread with the given id.
pub open spec fn has_thread(ts: Seq<ThreadInfo>, tid: i64) -> bool {
    exists|j: int| 0 <= j < ts.len() && ts[j].id == tid
}

/// The position of the thread with the given id.
pub open spec fn thread_at(ts: Seq<ThreadInfo>, tid: i64) -> int {
    choose|j: int| 0 <= j < ts.len() && ts[j].id == tid
}

/// With unique ids, the position a search found is the position the
/// spec names.
pub proof fn lemma_thread_at_found(ts: Seq<ThreadInfo>, j: int)
    requires
        forall|k: int, l: int| 0 <= k < l < ts.len() ==> ts[k].id != ts[l].id,
        0 <= j < ts.len(),
    ensures
        thread_at(ts, ts[j].id) == j,
{
    let w = thread_at(ts, ts[j].id);
    assert(0 <= w < ts.len() && ts[w].id == ts[j].id);
    if w != j {
        assert(ts[w].id != ts[j].id);
    }
}

/// Replacing one thread's status keeps the list well-formed, its
/// length, and every id.
pub proof fn lemma_set_thread_status_wf(ts: Seq<ThreadInfo>, tid: i64, st: ThreadStatus)
    requires
        forall|k: int| 0 <= k < ts.len() ==> (#[trigger] ts[k]).wf(),
    ensures
        set_thread_status(ts, tid, st).len() == ts.len(),
        forall|k: int|
            0 <= k < ts.len() ==> (#[trigger] set_thread_status(ts, tid, st)[k]).wf(),
        forall|k: int|
            0 <= k < ts.len() ==> (#[trigger] set_thread_status(ts, tid, st)[k]).id == ts[k].id,
{
}

/// Replacing every thread's status keeps the list well-formed, its
/// length, and every id.
pub proof fn lemma_set_all_thread_status_wf(ts: Seq<ThreadInfo>, st: ThreadStatus)
    requires
        forall|k: int| 0 <= k < ts.len() ==> (#[trigger] ts[k]).wf(),
    ensures
        set_all_thread_status(ts, st).len() == ts.len(),
        forall|k: int|
            0 <= k < ts.len() ==> (#[trigger] set_all_thread_status(ts, st)[k]).wf(),
        forall|k: int|
            0 <= k < ts.len() ==> (#[trigger] set_all_thread_status(ts, st)[k]).id == ts[k].id,
{
}

/// A thread record with its status replaced and the derived flag kept
/// in agreement.
pub open spec fn spec_with_status(t: ThreadInfo, st: ThreadStatus) -> ThreadInfo {
    ThreadInfo {
        status: st,
        suspended: st == ThreadStatus::Suspended || st == ThreadStatus::SuspendedAtBreakpoint,
        ..t
    }
}

/// The thread list with the status of one thread replaced; unknown ids
/// leave the list unchanged.
pub open spec fn set_thread_status(ts: Seq<ThreadInfo>, tid: i64, st: ThreadStatus) -> Seq<
    ThreadInfo,
> {
    Seq::new(
        ts.len(),
        |i: int|
            if ts[i].id == tid {
                spec_with_status(ts[i], st)
            } else {
                ts[i]
            },
    )
}

/// The thread list with every status replaced.
pub open spec fn set_all_thread_status(ts: Seq<ThreadInfo>, st: ThreadStatus) -> Seq<ThreadInfo> {
    Seq::new(ts.len(), |i: int| spec_with_status(ts[i], st))
}

/// The thread list without the thread of the given id.
pub open spec fn remove_thread(ts: Seq<ThreadInfo>, tid: i64) -> Seq<ThreadInfo>
    decreases ts.len(),
{
    if ts.len() == 0 {
        Seq::empty()
    } else {
        let rest = remove_thread(ts.drop_last(), tid);
        if ts.last().id == tid {
            rest
        } else {
            rest.push(ts.last())
        }
    }
}

/// The thread list rebuilt with the status of one thread replaced.
pub fn set_status_by_id(v: &Vec<ThreadInfo>, tid: i64, st: ThreadStatus) -> (r: Vec<ThreadInfo>)
    ensures
        r@ == set_thread_status(v@, tid, st),
{
    let mut r: Vec<ThreadInfo> = Vec::new();
    let mut i: usize = 0;
    while i < v.len()
        invariant
            i <= v@.len(),
            r@.len() == i,
            forall|j: int|
                0 <= j < i ==> r@[j] == if v@[j].id == tid {
                    spec_with_status(v@[j], st)
                } else {
                    v@[j]
                },
        decreases v@.len() - i,
    {
        let mut t = v[i].clone();
        if t.id == tid {
            t.set_status(st);
            proof {
                assert(t == spec_with_status(v@[i as int], st));
            }
        }
        r.push(t);
        i = i + 1;
    }
    proof {
        assert(r@ =~= set_thread_status(v@, tid, st));
    }
    r
}

/// The thread list rebuilt with every status replaced.
pub fn set_all_status(v: &Vec<ThreadInfo>, st: ThreadStatus) -> (r: Vec<ThreadInfo>)
    ensures
        r@ == set_all_thread_status(v@, st),
{
    let mut r: Vec<ThreadInfo> = Vec::new();
    let mut i: usize = 0;
    while i < v.len()
        invariant
            i <= v@.len(),
            r@.len() == i,
            forall|j: int| 0 <= j < i ==> r@[j] == spec_with_status(v@[j], st),
        decreases v@.len() - i,
    {
        let mut t = v[i].clone();
        t.set_status(st);
        proof {
            assert(t == spec_with_status(v@[i as int], st));
        }
        r.push(t);
        i = i + 1;
    }
    proof {
        assert(r@ =~= set_all_thread_status(v@, st));
    }
    r
}

/// The thread list rebuilt without the thread of the given id.
pub fn remove_thread_by_id(v: &Vec<ThreadInfo>, tid: i64) -> (r: Vec<ThreadInfo>)
    ensures
        r@ == remove_thread(v@, tid),
{
    let mut r: Vec<ThreadInfo> = Vec::new();
    let mut i: usize = 0;
    while i < v.len()
        invariant
            i <= v@.len(),
            r@ == remove_thread(v@.subrange(0, i as int), tid),
        decreases v@.len() - i,
    {
        if v[i].id != tid {
            r.push(v[i].clone());
        }
        i = i + 1;
        proof {
            let post = v@.subrange(0, i as int);
            assert(post.drop_last() =~= v@.subrange(0, i - 1));
            assert(post.last() == v@[i - 1]);
        }
    }
    proof {
        assert(v@.subrange(0, v@.len() as int) =~= v@);
    }
    r
}

/// Copies of all threads, as the list call reports them.
pub fn clone_threads(v: &Vec<ThreadInfo>) -> (r: Vec<ThreadInfo>)
    ensures
        r@ == v@,
{
    let mut r: Vec<ThreadInfo> = Vec::new();
    let mut i: usize = 0;
    while i < v.len()
        invariant
            i <= v@.len(),
            r@.len() == i,
            forall|j: int| 0 <= j < i ==> r@[j] == v@[j],
        decreases v@.len() - i,
    {
        r.push(v[i].clone());
        i = i + 1;
    }
    proof {
        assert(r@ =~= v@);
    }
    r
}

/// Removing a thread keeps the remaining records, their
/// well-formedness, and the uniqueness of their ids, and drops the
/// given id entirely.
pub proof fn lemma_remove_thread_wf(ts: Seq<ThreadInfo>, tid: i64)
    requires
        forall|k: int| 0 <= k < ts.len() ==> (#[trigger] ts[k]).wf(),
        forall|k: int, l: int| 0 <= k < l < ts.len() ==> ts[k].id != ts[l].id,
    ensures
        forall|k: int|
            0 <= k < remove_thread(ts, tid).len() ==> (#[trigger] remove_thread(ts, tid)[k]).wf(),
        forall|k: int, l: int|
            0 <= k < l < remove_thread(ts, tid).len() ==> remove_thread(ts, tid)[k].id
                != remove_thread(ts, tid)[l].id,
        forall|k: int|
            0 <= k < remove_thread(ts, tid).len() ==> (#[trigger] remove_thread(ts, tid)[k]).id
                != tid,
        forall|k: int|
            0 <= k < remove_thread(ts, tid).len() ==> ts.contains(
                #[trigger] remove_thread(ts, tid)[k],
            ),
    decreases ts.len(),
{
    if ts.len() > 0 {
        let dl = ts.drop_last();
        assert(forall|i: int| 0 <= i < dl.len() ==> dl[i] == ts[i]);
        lemma_remove_thread_wf(dl, tid);
        let rest = remove_thread(dl, tid);
        assert forall|k: int| 0 <= k < remove_thread(ts, tid).len() implies ts.contains(
            #[trigger] remove_thread(ts, tid)[k],
        ) by {
            if k < rest.len() {
                let j = choose|j: int| 0 <= j < dl.len() && dl[j] == rest[k];
                assert(ts[j] == rest[k]);
            } else {
                assert(remove_thread(ts, tid)[k] == ts[ts.len() - 1]);
            }
        }
        if ts.last().id != tid {
            assert forall|a: int, b: int|
                0 <= a < b < remove_thread(ts, tid).len() implies remove_thread(ts, tid)[a].id
                != remove_thread(ts, tid)[b].id by {
                if b == rest.len() {
                    let x = rest[a];
                    let j = choose|j: int| 0 <= j < dl.len() && dl[j] == x;
                    assert(ts[j] == x);
                    assert(ts[j].id != ts[ts.len() - 1].id);
                }
            }
        }
    }
}

/// Find the position of the thread with the given id.
pub fn find_thread(ts: &Vec<ThreadInfo>, id: i64) -> (r: Option<usize>)
    ensures
        match r {
            Some(i) => i < ts@.len() && ts@[i as int].id == id,
            None => forall|i: int| 0 <= i < ts@.len() ==> ts@[i].id != id,
        },
{
    let mut i: usize = 0;
    while i < ts.len()
        invariant
            i <= ts@.len(),
            forall|j: int| 0 <= j < i ==> ts@[j].id != id,
        decreases ts@.len() - i,
    {
        if ts[i].id == id {
            return Some(i);
        }
        i = i + 1;
    }
    None
}

/// The suspended threads of a list, in their original order.
pub fn filter_suspended(ts: &Vec<ThreadInfo>) -> (r: Vec<ThreadInfo>)
    ensures
        r@ == suspended_only(ts@),
{
    let mut r: Vec<ThreadInfo> = Vec::new();
    let mut i: usize = 0;
    while i < ts.len()
        invariant
            i <= ts@.len(),
            r@ == suspended_only(ts@.subrange(0, i as int)),
        decreases ts@.len() - i,
    {
        if ts[i].suspended {
            r.push(ts[i].clone());
        }
        i = i + 1;
        proof {
            let post = ts@.subrange(0, i as int);
            assert(post.drop_last() =~= ts@.subrange(0, i - 1));
            assert(post.last() == ts@[i - 1]);
        }
    }
    proof {
        assert(ts@.subrange(0, ts@.len() as int) =~= ts@);
    }
    r
}

} // verus!
