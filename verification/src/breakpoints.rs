//! The breakpoint catalog: line and method breakpoints plus exception
//! breakpoints, keyed by ids that are unique across the registry and
//! never reused.
//!
//! The catalog is modelled as a sequence; each operation of the core
//! pins its result to one of the spec functions here, and the
//! lifecycle law at the bottom ties them together.

use vstd::prelude::*;

verus! {

/// Where a breakpoint triggers: a source line or a method entry.
#[derive(Debug)]
pub enum BpLocation {
    Line { class_name: String, line: i32 },
    Method { class_name: String, method_name: String, signature: Option<String> },
}

/// Copy an optional string.
pub fn clone_opt_string(o: &Option<String>) -> (r: Option<String>)
    ensures
        r == *o,
{
    match o {
        Some(s) => Some(s.clone()),
        None => None,
    }
}

impl Clone for BpLocation {
    fn clone(&self) -> (res: Self)
        ensures
            res == *self,
    {
        match self {
            BpLocation::Line { class_name, line } => {
                BpLocation::Line { class_name: class_name.clone(), line: *line }
            },
            BpLocation::Method { class_name, method_name, signature } => {
                BpLocation::Method {
                    class_name: class_name.clone(),
                    method_name: method_name.clone(),
                    signature: clone_opt_string(signature),
                }
            },
        }
    }
}

/// A location-triggered pause instruction installed in the target.
#[derive(Debug)]
pub struct Breakpoint {
    /// Unique across the registry for its lifetime; never reused.
    pub id: u64,
    pub session_id: String,
    pub location: BpLocation,
    /// An opaque condition expression, evaluated by the runtime bridge.
    pub condition: Option<String>,
    pub enabled: bool,
    pub hit_count: u64,
}

impl Clone for Breakpoint {
    fn clone(&self) -> (res: Self)
        ensures
            res == *self,
    {
        Breakpoint {
            id: self.id,
            session_id: self.session_id.clone(),
            location: self.location.clone(),
            condition: clone_opt_string(&self.condition),
            enabled: self.enabled,
            hit_count: self.hit_count,
        }
    }
}

/// A pause instruction triggered by a thrown exception class.
#[derive(Debug)]
pub struct ExceptionBreakpoint {
    /// Unique across the registry for its lifetime; never reused.
    pub id: u64,
    pub session_id: String,
    pub exception_class: String,
    pub caught: bool,
    pub uncaught: bool,
}

impl Clone for ExceptionBreakpoint {
    fn clone(&self) -> (res: Self)
        ensures
            res == *self,
    {
        ExceptionBreakpoint {
            id: self.id,
            session_id: self.session_id.clone(),
            exception_class: self.exception_class.clone(),
            caught: self.caught,
            uncaught: self.uncaught,
        }
    }
}

/// No two catalog entries share an id.
pub open spec fn bp_ids_unique(s: Seq<Breakpoint>) -> bool {
    forall|i: int, j: int| 0 <= i < j < s.len() ==> s[i].id != s[j].id
}

/// The catalog position of the entry with the given id.
pub open spec fn bp_index_of(s: Seq<Breakpoint>, id: u64) -> int {
    choose|i: int| 0 <= i < s.len() && s[i].id == id
}

/// With unique ids, the position a search found is the position the
/// spec names.
pub proof fn lemma_bp_index_found(s: Seq<Breakpoint>, j: int)
    requires
        bp_ids_unique(s),
        0 <= j < s.len(),
    ensures
        bp_index_of(s, s[j].id) == j,
{
    let w = bp_index_of(s, s[j].id);
    assert(0 <= w < s.len() && s[w].id == s[j].id);
    if w != j {
        assert(s[w].id != s[j].id);
    }
}

/// The catalog entries owned by one session, in order.
pub open spec fn owned_by(s: Seq<Breakpoint>, sid: Seq<char>) -> Seq<Breakpoint>
    decreases s.len(),
{
    if s.len() == 0 {
        Seq::empty()
    } else {
        let rest = owned_by(s.drop_last(), sid);
        if s.last().session_id@ == sid {
            rest.push(s.last())
        } else {
            rest
        }
    }
}

/// The catalog without the entry of the given id.
pub open spec fn remove_id(s: Seq<Breakpoint>, id: u64) -> Seq<Breakpoint>
    decreases s.len(),
{
    if s.len() == 0 {
        Seq::empty()
    } else {
        let rest = remove_id(s.drop_last(), id);
        if s.last().id == id {
            rest
        } else {
            rest.push(s.last())
        }
    }
}

/// The catalog without the entries owned by one session.
pub open spec fn remove_session(s: Seq<Breakpoint>, sid: Seq<char>) -> Seq<Breakpoint>
    decreases s.len(),
{
    if s.len() == 0 {
        Seq::empty()
    } else {
        let rest = remove_session(s.drop_last(), sid);
        if s.last().session_id@ == sid {
            rest
        } else {
            rest.push(s.last())
        }
    }
}

/// The catalog with the enabled flag of the entry of the given id
/// replaced.
pub open spec fn set_enabled(s: Seq<Breakpoint>, id: u64, value: bool) -> Seq<Breakpoint>
    decreases s.len(),
{
    if s.len() == 0 {
        Seq::empty()
    } else {
        let rest = set_enabled(s.drop_last(), id, value);
        if s.last().id == id {
            rest.push(Breakpoint { enabled: value, ..s.last() })
        } else {
            rest.push(s.last())
        }
    }
}

/// The catalog with the hit count of the entry of the given id
/// incremented.
pub open spec fn bump_hit(s: Seq<Breakpoint>, id: u64) -> Seq<Breakpoint>
    decreases s.len(),
{
    if s.len() == 0 {
        Seq::empty()
    } else {
        let rest = bump_hit(s.drop_last(), id);
        if s.last().id == id {
            rest.push(Breakpoint { hit_count: (s.last().hit_count + 1) as u64, ..s.last() })
        } else {
            rest.push(s.last())
        }
    }
}

/// Find the position of the breakpoint with the given id.
pub fn find_breakpoint(v: &Vec<Breakpoint>, id: u64) -> (r: Option<usize>)
    ensures
        match r {
            Some(i) => i < v@.len() && v@[i as int].id == id,
            None => forall|i: int| 0 <= i < v@.len() ==> v@[i].id != id,
        },
{
    let mut i: usize = 0;
    while i < v.len()
        invariant
            i <= v@.len(),
            forall|j: int| 0 <= j < i ==> v@[j].id != id,
        decreases v@.len() - i,
    {
        if v[i].id == id {
            return Some(i);
        }
        i = i + 1;
    }
    None
}

/// Find the position of the exception breakpoint with the given id.
pub fn find_exception_breakpoint(v: &Vec<ExceptionBreakpoint>, id: u64) -> (r: Option<usize>)
    ensures
        match r {
            Some(i) => i < v@.len() && v@[i as int].id == id,
            None => forall|i: int| 0 <= i < v@.len() ==> v@[i].id != id,
        },
{
    let mut i: usize = 0;
    while i < v.len()
        invariant
            i <= v@.len(),
            forall|j: int| 0 <= j < i ==> v@[j].id != id,
        decreases v@.len() - i,
    {
        if v[i].id == id {
            return Some(i);
        }
        i = i + 1;
    }
    None
}

/// The breakpoints of one session, as the list call reports them.
pub fn list_for_session(v: &Vec<Breakpoint>, sid: &String) -> (r: Vec<Breakpoint>)
    ensures
        r@ == owned_by(v@, sid@),
{
    let mut r: Vec<Breakpoint> = Vec::new();
    let mut i: usize = 0;
    while i < v.len()
        invariant
            i <= v@.len(),
            r@ == owned_by(v@.subrange(0, i as int), sid@),
        decreases v@.len() - i,
    {
        if v[i].session_id == *sid {
            r.push(v[i].clone());
        }
        i = i + 1;
        proof {
            let post = v@.subrange(0, i as int);
            assert(post.drop_last() =~= v@.subrange(0, i - 1));
            assert(post.last() == v@[i - 1]);
        }
    }
    proof {
        assert(v@.subrange(0, v@.len() as int) =~= v@);
    }
    r
}

/// The catalog rebuilt without the entry of the given id.
pub fn remove_by_id(v: &Vec<Breakpoint>, id: u64) -> (r: Vec<Breakpoint>)
    ensures
        r@ == remove_id(v@, id),
{
    let mut r: Vec<Breakpoint> = Vec::new();
    let mut i: usize = 0;
    while i < v.len()
        invariant
            i <= v@.len(),
            r@ == remove_id(v@.subrange(0, i as int), id),
        decreases v@.len() - i,
    {
        if v[i].id != id {
            r.push(v[i].clone());
        }
        i = i + 1;
        proof {
            let post = v@.subrange(0, i as int);
            assert(post.drop_last() =~= v@.subrange(0, i - 1));
            assert(post.last() == v@[i - 1]);
        }
    }
    proof {
        assert(v@.subrange(0, v@.len() as int) =~= v@);
    }
    r
}

/// The catalog rebuilt without the entries owned by one session.
pub fn remove_for_session(v: &Vec<Breakpoint>, sid: &String) -> (r: Vec<Breakpoint>)
    ensures
        r@ == remove_session(v@, sid@),
{
    let mut r: Vec<Breakpoint> = Vec::new();
    let mut i: usize = 0;
    while i < v.len()
        invariant
            i <= v@.len(),
            r@ == remove_session(v@.subrange(0, i as int), sid@),
        decreases v@.len() - i,
    {
        if !(v[i].session_id == *sid) {
            r.push(v[i].clone());
        }
        i = i + 1;
        proof {
            let post = v@.subrange(0, i as int);
            assert(post.drop_last() =~= v@.subrange(0, i - 1));
            assert(post.last() == v@[i - 1]);
        }
    }
    proof {
        assert(v@.subrange(0, v@.len() as int) =~= v@);
    }
    r
}

/// The catalog rebuilt with the enabled flag of one entry replaced.
pub fn set_enabled_by_id(v: &Vec<Breakpoint>, id: u64, value: bool) -> (r: Vec<Breakpoint>)
    ensures
        r@ == set_enabled(v@, id, value),
{
    let mut r: Vec<Breakpoint> = Vec::new();
    let mut i: usize = 0;
    while i < v.len()
        invariant
            i <= v@.len(),
            r@ == set_enabled(v@.subrange(0, i as int), id, value),
        decreases v@.len() - i,
    {
        let mut b = v[i].clone();
        if b.id == id {
            b.enabled = value;
        }
        r.push(b);
        i = i + 1;
        proof {
            let post = v@.subrange(0, i as int);
            assert(post.drop_last() =~= v@.subrange(0, i - 1));
            assert(post.last() == v@[i - 1]);
        }
    }
    proof {
        assert(v@.subrange(0, v@.len() as int) =~= v@);
    }
    r
}

/// The catalog rebuilt with the hit count of one entry incremented.
pub fn bump_hit_by_id(v: &Vec<Breakpoint>, id: u64) -> (r: Vec<Breakpoint>)
    requires
        forall|i: int| 0 <= i < v@.len() && v@[i].id == id ==> v@[i].hit_count < u64::MAX,
    ensures
        r@ == bump_hit(v@, id),
{
    let mut r: Vec<Breakpoint> = Vec::new();
    let mut i: usize = 0;
    while i < v.len()
        invariant
            i <= v@.len(),
            forall|j: int| 0 <= j < v@.len() && v@[j].id == id ==> v@[j].hit_count < u64::MAX,
            r@ == bump_hit(v@.subrange(0, i as int), id),
        decreases v@.len() - i,
    {
        let mut b = v[i].clone();
        if b.id == id {
            b.hit_count = b.hit_count + 1;
        }
        r.push(b);
        i = i + 1;
        proof {
            let post = v@.subrange(0, i as int);
            assert(post.drop_last() =~= v@.subrange(0, i - 1));
            assert(post.last() == v@[i - 1]);
        }
    }
    proof {
        assert(v@.subrange(0, v@.len() as int) =~= v@);
    }
    r
}

/// Find the id of an exception breakpoint of one session by its
/// exception class.
pub fn find_exception_by_class(
    v: &Vec<ExceptionBreakpoint>,
    sid: &String,
    class: &String,
) -> (r: Option<u64>)
    ensures
        match r {
            Some(id) => exists|k: int|
                0 <= k < v@.len() && (#[trigger] v@[k]).id == id && v@[k].session_id@ == sid@
                    && v@[k].exception_class@ == class@,
            None => forall|k: int|
                0 <= k < v@.len() ==> !((#[trigger] v@[k]).session_id@ == sid@
                    && v@[k].exception_class@ == class@),
        },
{
    let mut i: usize = 0;
    while i < v.len()
        invariant
            i <= v@.len(),
            forall|k: int|
                0 <= k < i ==> !((#[trigger] v@[k]).session_id@ == sid@
                    && v@[k].exception_class@ == class@),
        decreases v@.len() - i,
    {
        if v[i].session_id == *sid && v[i].exception_class == *class {
            let id = v[i].id;
            proof {
                assert(v@[i as int].id == id && v@[i as int].session_id@ == sid@
                    && v@[i as int].exception_class@ == class@);
            }
            return Some(id);
        }
        i = i + 1;
    }
    None
}

/// The exception breakpoints of one session.
pub fn ex_list_for_session(v: &Vec<ExceptionBreakpoint>, sid: &String) -> (r: Vec<
    ExceptionBreakpoint,
>)
    ensures
        r@ == ex_owned_by(v@, sid@),
{
    let mut r: Vec<ExceptionBreakpoint> = Vec::new();
    let mut i: usize = 0;
    while i < v.len()
        invariant
            i <= v@.len(),
            r@ == ex_owned_by(v@.subrange(0, i as int), sid@),
        decreases v@.len() - i,
    {
        if v[i].session_id == *sid {
            r.push(v[i].clone());
        }
        i = i + 1;
        proof {
            let post = v@.subrange(0, i as int);
            assert(post.drop_last() =~= v@.subrange(0, i - 1));
            assert(post.last() == v@[i - 1]);
        }
    }
    proof {
        assert(v@.subrange(0, v@.len() as int) =~= v@);
    }
    r
}

/// The exception-breakpoint catalog entries owned by one session.
pub open spec fn ex_owned_by(s: Seq<ExceptionBreakpoint>, sid: Seq<char>) -> Seq<
    ExceptionBreakpoint,
>
    decreases s.len(),
{
    if s.len() == 0 {
        Seq::empty()
    } else {
        let rest = ex_owned_by(s.drop_last(), sid);
        if s.last().session_id@ == sid {
            rest.push(s.last())
        } else {
            rest
        }
    }
}

/// The exception-breakpoint catalog without the entry of the given id.
pub open spec fn ex_remove_id(s: Seq<ExceptionBreakpoint>, id: u64) -> Seq<ExceptionBreakpoint>
    decreases s.len(),
{
    if s.len() == 0 {
        Seq::empty()
    } else {
        let rest = ex_remove_id(s.drop_last(), id);
        if s.last().id == id {
            rest
        } else {
            rest.push(s.last())
        }
    }
}

/// The exception-breakpoint catalog without the entries owned by one
/// session.
pub open spec fn ex_remove_session(s: Seq<ExceptionBreakpoint>, sid: Seq<char>) -> Seq<
    ExceptionBreakpoint,
>
    decreases s.len(),
{
    if s.len() == 0 {
        Seq::empty()
    } else {
        let rest = ex_remove_session(s.drop_last(), sid);
        if s.last().session_id@ == sid {
            rest
        } else {
            rest.push(s.last())
        }
    }
}

/// The exception-breakpoint catalog rebuilt without the entry of the
/// given id.
pub fn ex_remove_by_id(v: &Vec<ExceptionBreakpoint>, id: u64) -> (r: Vec<ExceptionBreakpoint>)
    ensures
        r@ == ex_remove_id(v@, id),
{
    let mut r: Vec<ExceptionBreakpoint> = Vec::new();
    let mut i: usize = 0;
    while i < v.len()
        invariant
            i <= v@.len(),
            r@ == ex_remove_id(v@.subrange(0, i as int), id),
        decreases v@.len() - i,
    {
        if v[i].id != id {
            r.push(v[i].clone());
        }
        i = i + 1;
        proof {
            let post = v@.subrange(0, i as int);
            assert(post.drop_last() =~= v@.subrange(0, i - 1));
            assert(post.last() == v@[i - 1]);
        }
    }
    proof {
        assert(v@.subrange(0, v@.len() as int) =~= v@);
    }
    r
}

/// Toggling an enabled flag changes nothing but that flag on the one
/// matching entry.
pub proof fn lemma_set_enabled_shape(s: Seq<Breakpoint>, id: u64, value: bool)
    ensures
        set_enabled(s, id, value).len() == s.len(),
        forall|i: int|
            0 <= i < s.len() ==> #[trigger] set_enabled(s, id, value)[i] == if s[i].id == id {
                Breakpoint { enabled: value, ..s[i] }
            } else {
                s[i]
            },
    decreases s.len(),
{
    if s.len() > 0 {
        lemma_set_enabled_shape(s.drop_last(), id, value);
        assert(forall|i: int| 0 <= i < s.len() - 1 ==> s.drop_last()[i] == s[i]);
    }
}

/// A hit notification changes nothing but the hit count of the one
/// matching entry.
pub proof fn lemma_bump_hit_shape(s: Seq<Breakpoint>, id: u64)
    ensures
        bump_hit(s, id).len() == s.len(),
        forall|i: int|
            0 <= i < s.len() ==> #[trigger] bump_hit(s, id)[i] == if s[i].id == id {
                Breakpoint { hit_count: (s[i].hit_count + 1) as u64, ..s[i] }
            } else {
                s[i]
            },
    decreases s.len(),
{
    if s.len() > 0 {
        lemma_bump_hit_shape(s.drop_last(), id);
        assert(forall|i: int| 0 <= i < s.len() - 1 ==> s.drop_last()[i] == s[i]);
    }
}

/// Removing an id keeps the other entries, their uniqueness, and their
/// bound, and drops the given id entirely.
pub proof fn lemma_remove_id_wf(s: Seq<Breakpoint>, id: u64, bound: int)
    requires
        bp_ids_unique(s),
        forall|i: int| 0 <= i < s.len() ==> s[i].id < bound,
    ensures
        bp_ids_unique(remove_id(s, id)),
        forall|k: int|
            0 <= k < remove_id(s, id).len() ==> (#[trigger] remove_id(s, id)[k]).id < bound,
        forall|k: int|
            0 <= k < remove_id(s, id).len() ==> (#[trigger] remove_id(s, id)[k]).id != id,
        forall|k: int|
            0 <= k < remove_id(s, id).len() ==> s.contains(#[trigger] remove_id(s, id)[k]),
    decreases s.len(),
{
    if s.len() > 0 {
        let dl = s.drop_last();
        assert(forall|i: int| 0 <= i < dl.len() ==> dl[i] == s[i]);
        lemma_remove_id_wf(dl, id, bound);
        let rest = remove_id(dl, id);
        assert forall|k: int| 0 <= k < remove_id(s, id).len() implies s.contains(
            #[trigger] remove_id(s, id)[k],
        ) by {
            if k < rest.len() {
                let j = choose|j: int| 0 <= j < dl.len() && dl[j] == rest[k];
                assert(s[j] == rest[k]);
            } else {
                assert(remove_id(s, id)[k] == s[s.len() - 1]);
            }
        }
        if s.last().id != id {
            assert forall|a: int, b: int|
                0 <= a < b < remove_id(s, id).len() implies remove_id(s, id)[a].id != remove_id(
                s,
                id,
            )[b].id by {
                if b == rest.len() {
                    let x = rest[a];
                    let j = choose|j: int| 0 <= j < dl.len() && dl[j] == x;
                    assert(s[j] == x);
                    assert(s[j].id != s[s.len() - 1].id);
                }
            }
        }
    }
}

/// Removing an exception-breakpoint id keeps the other entries, their
/// uniqueness, and their bound, and drops the given id entirely.
pub proof fn lemma_ex_remove_id_wf(s: Seq<ExceptionBreakpoint>, id: u64, bound: int)
    requires
        forall|i: int, j: int| 0 <= i < j < s.len() ==> s[i].id != s[j].id,
        forall|i: int| 0 <= i < s.len() ==> s[i].id < bound,
    ensures
        forall|i: int, j: int|
            0 <= i < j < ex_remove_id(s, id).len() ==> ex_remove_id(s, id)[i].id != ex_remove_id(
                s,
                id,
            )[j].id,
        forall|k: int|
            0 <= k < ex_remove_id(s, id).len() ==> (#[trigger] ex_remove_id(s, id)[k]).id < bound,
        forall|k: int|
            0 <= k < ex_remove_id(s, id).len() ==> (#[trigger] ex_remove_id(s, id)[k]).id != id,
        forall|k: int|
            0 <= k < ex_remove_id(s, id).len() ==> s.contains(#[trigger] ex_remove_id(s, id)[k]),
    decreases s.len(),
{
    if s.len() > 0 {
        let dl = s.drop_last();
        assert(forall|i: int| 0 <= i < dl.len() ==> dl[i] == s[i]);
        lemma_ex_remove_id_wf(dl, id, bound);
        let rest = ex_remove_id(dl, id);
        assert forall|k: int| 0 <= k < ex_remove_id(s, id).len() implies s.contains(
            #[trigger] ex_remove_id(s, id)[k],
        ) by {
            if k < rest.len() {
                let j = choose|j: int| 0 <= j < dl.len() && dl[j] == rest[k];
                assert(s[j] == rest[k]);
            } else {
                assert(ex_remove_id(s, id)[k] == s[s.len() - 1]);
            }
        }
        if s.last().id != id {
            assert forall|a: int, b: int|
                0 <= a < b < ex_remove_id(s, id).len() implies ex_remove_id(s, id)[a].id
                != ex_remove_id(s, id)[b].id by {
                if b == rest.len() {
                    let x = rest[a];
                    let j = choose|j: int| 0 <= j < dl.len() && dl[j] == x;
                    assert(s[j] == x);
                    assert(s[j].id != s[s.len() - 1].id);
                }
            }
        }
    }
}

/// Removing a session's entries keeps ids unique and within their
/// bound, and invents no entry.
pub proof fn lemma_remove_session_wf(s: Seq<Breakpoint>, sid: Seq<char>, bound: int)
    requires
        bp_ids_unique(s),
        forall|i: int| 0 <= i < s.len() ==> s[i].id < bound,
    ensures
        bp_ids_unique(remove_session(s, sid)),
        forall|k: int|
            0 <= k < remove_session(s, sid).len() ==> (#[trigger] remove_session(s, sid)[k]).id
                < bound,
        forall|k: int|
            0 <= k < remove_session(s, sid).len() ==> s.contains(
                #[trigger] remove_session(s, sid)[k],
            ),
    decreases s.len(),
{
    if s.len() > 0 {
        let dl = s.drop_last();
        assert(forall|i: int, j: int| 0 <= i < j < dl.len() ==> dl[i] == s[i] && dl[j] == s[j]);
        assert(forall|i: int| 0 <= i < dl.len() ==> dl[i] == s[i]);
        lemma_remove_session_wf(dl, sid, bound);
        let rest = remove_session(dl, sid);
        assert forall|k: int| 0 <= k < remove_session(s, sid).len() implies s.contains(
            #[trigger] remove_session(s, sid)[k],
        ) by {
            if k < rest.len() {
                let j = choose|j: int| 0 <= j < dl.len() && dl[j] == rest[k];
                assert(s[j] == rest[k]);
            } else {
                assert(remove_session(s, sid)[k] == s[s.len() - 1]);
            }
        }
        if !(s.last().session_id@ == sid) {
            assert forall|a: int, b: int|
                0 <= a < b < remove_session(s, sid).len() implies remove_session(s, sid)[a].id
                != remove_session(s, sid)[b].id by {
                if b == rest.len() {
                    let x = rest[a];
                    let j = choose|j: int| 0 <= j < dl.len() && dl[j] == x;
                    assert(s[j] == x);
                    assert(s[j].id != s[s.len() - 1].id);
                }
            }
        }
    }
}

/// Removing a session's exception entries keeps ids unique and within
/// their bound, and invents no entry.
pub proof fn lemma_ex_remove_session_wf(s: Seq<ExceptionBreakpoint>, sid: Seq<char>, bound: int)
    requires
        forall|i: int, j: int| 0 <= i < j < s.len() ==> s[i].id != s[j].id,
        forall|i: int| 0 <= i < s.len() ==> s[i].id < bound,
    ensures
        forall|i: int, j: int|
            0 <= i < j < ex_remove_session(s, sid).len() ==> ex_remove_session(s, sid)[i].id
                != ex_remove_session(s, sid)[j].id,
        forall|k: int|
            0 <= k < ex_remove_session(s, sid).len() ==> (#[trigger] ex_remove_session(s, sid)[k]).id
                < bound,
        forall|k: int|
            0 <= k < ex_remove_session(s, sid).len() ==> s.contains(
                #[trigger] ex_remove_session(s, sid)[k],
            ),
    decreases s.len(),
{
    if s.len() > 0 {
        let dl = s.drop_last();
        assert(forall|i: int, j: int| 0 <= i < j < dl.len() ==> dl[i] == s[i] && dl[j] == s[j]);
        assert(forall|i: int| 0 <= i < dl.len() ==> dl[i] == s[i]);
        lemma_ex_remove_session_wf(dl, sid, bound);
        let rest = ex_remove_session(dl, sid);
        assert forall|k: int| 0 <= k < ex_remove_session(s, sid).len() implies s.contains(
            #[trigger] ex_remove_session(s, sid)[k],
        ) by {
            if k < rest.len() {
                let j = choose|j: int| 0 <= j < dl.len() && dl[j] == rest[k];
                assert(s[j] == rest[k]);
            } else {
                assert(ex_remove_session(s, sid)[k] == s[s.len() - 1]);
            }
        }
        if !(s.last().session_id@ == sid) {
            assert forall|a: int, b: int|
                0 <= a < b < ex_remove_session(s, sid).len() implies ex_remove_session(
                s,
                sid,
            )[a].id != ex_remove_session(s, sid)[b].id by {
                if b == rest.len() {
                    let x = rest[a];
                    let j = choose|j: int| 0 <= j < dl.len() && dl[j] == x;
                    assert(s[j] == x);
                    assert(s[j].id != s[s.len() - 1].id);
                }
            }
        }
    }
}

/// After a session's entries are removed, that session's listing is
/// empty.
pub proof fn lemma_remove_session_owns_nothing(s: Seq<Breakpoint>, sid: Seq<char>)
    ensures
        owned_by(remove_session(s, sid), sid) == Seq::<Breakpoint>::empty(),
    decreases s.len(),
{
    if s.len() > 0 {
        lemma_remove_session_owns_nothing(s.drop_last(), sid);
        if !(s.last().session_id@ == sid) {
            let rest = remove_session(s.drop_last(), sid);
            assert(rest.push(s.last()).drop_last() =~= rest);
        }
    }
}

/// After a session's exception entries are removed, that session's
/// listing is empty.
pub proof fn lemma_ex_remove_session_owns_nothing(s: Seq<ExceptionBreakpoint>, sid: Seq<char>)
    ensures
        ex_owned_by(ex_remove_session(s, sid), sid) == Seq::<ExceptionBreakpoint>::empty(),
    decreases s.len(),
{
    if s.len() > 0 {
        lemma_ex_remove_session_owns_nothing(s.drop_last(), sid);
        if !(s.last().session_id@ == sid) {
            let rest = ex_remove_session(s.drop_last(), sid);
            assert(rest.push(s.last()).drop_last() =~= rest);
        }
    }
}

/// Appending an entry extends the owner's listing by that entry and
/// leaves every other session's listing unchanged.
pub proof fn lemma_owned_push(s: Seq<Breakpoint>, b: Breakpoint, sid: Seq<char>)
    ensures
        owned_by(s.push(b), sid) == if b.session_id@ == sid {
            owned_by(s, sid).push(b)
        } else {
            owned_by(s, sid)
        },
{
    assert(s.push(b).drop_last() =~= s);
    assert(s.push(b).last() == b);
}

/// Toggling an id that the catalog does not hold changes nothing.
pub proof fn lemma_set_enabled_absent(s: Seq<Breakpoint>, id: u64, value: bool)
    requires
        forall|i: int| 0 <= i < s.len() ==> s[i].id != id,
    ensures
        set_enabled(s, id, value) == s,
    decreases s.len(),
{
    if s.len() > 0 {
        assert(forall|i: int| 0 <= i < s.drop_last().len() ==> s.drop_last()[i].id != id);
        lemma_set_enabled_absent(s.drop_last(), id, value);
        assert(s[s.len() - 1].id != id);
        assert(set_enabled(s, id, value) =~= s);
    }
}

/// Removing an id that the catalog does not hold changes nothing.
pub proof fn lemma_remove_absent(s: Seq<Breakpoint>, id: u64)
    requires
        forall|i: int| 0 <= i < s.len() ==> s[i].id != id,
    ensures
        remove_id(s, id) == s,
    decreases s.len(),
{
    if s.len() > 0 {
        assert(forall|i: int| 0 <= i < s.drop_last().len() ==> s.drop_last()[i].id != id);
        lemma_remove_absent(s.drop_last(), id);
        assert(s[s.len() - 1].id != id);
        assert(remove_id(s, id) =~= s);
    }
}

/// Of two successive enabled-flag transitions on one id, the most
/// recent one wins.
pub proof fn lemma_last_transition_wins(s: Seq<Breakpoint>, id: u64, v1: bool, v2: bool)
    ensures
        set_enabled(set_enabled(s, id, v1), id, v2) == set_enabled(s, id, v2),
    decreases s.len(),
{
    if s.len() > 0 {
        let dl = s.drop_last();
        lemma_last_transition_wins(dl, id, v1, v2);
        let x1 = if s.last().id == id {
            Breakpoint { enabled: v1, ..s.last() }
        } else {
            s.last()
        };
        assert(set_enabled(s, id, v1) == set_enabled(dl, id, v1).push(x1));
        assert(set_enabled(dl, id, v1).push(x1).drop_last() =~= set_enabled(dl, id, v1));
        assert(set_enabled(dl, id, v1).push(x1).last() == x1);
    }
}

/// The breakpoint lifecycle, as the list call reports it. Add a fresh
/// breakpoint, then enable or disable it twice (in any combination):
/// the owning session's listing is exactly its old listing plus the
/// breakpoint carrying the enabled state of the most recent
/// transition. Remove it after those transitions and the catalog is
/// exactly what it was before the add: no session lists it any more.
pub proof fn lemma_breakpoint_lifecycle(cat: Seq<Breakpoint>, bp: Breakpoint, v1: bool, v2: bool)
    requires
        forall|i: int| 0 <= i < cat.len() ==> cat[i].id != bp.id,
    ensures
        owned_by(set_enabled(set_enabled(cat.push(bp), bp.id, v1), bp.id, v2), bp.session_id@)
            == owned_by(cat, bp.session_id@).push(Breakpoint { enabled: v2, ..bp }),
        remove_id(set_enabled(set_enabled(cat.push(bp), bp.id, v1), bp.id, v2), bp.id) == cat,
{
    lemma_last_transition_wins(cat.push(bp), bp.id, v1, v2);
    let m = Breakpoint { enabled: v2, ..bp };
    assert(cat.push(bp).drop_last() =~= cat);
    assert(cat.push(bp).last() == bp);
    lemma_set_enabled_absent(cat, bp.id, v2);
    assert(set_enabled(cat.push(bp), bp.id, v2) == cat.push(m));
    lemma_owned_push(cat, m, bp.session_id@);
    assert(m.session_id@ == bp.session_id@);
    assert(cat.push(m).drop_last() =~= cat);
    assert(cat.push(m).last() == m);
    lemma_remove_absent(cat, bp.id);
    assert(remove_id(cat.push(m), bp.id) == cat);
}

/// The exception-breakpoint catalog rebuilt without the entries of one
/// session.
pub fn ex_remove_for_session(v: &Vec<ExceptionBreakpoint>, sid: &String) -> (r: Vec<
    ExceptionBreakpoint,
>)
    ensures
        r@ == ex_remove_session(v@, sid@),
{
    let mut r: Vec<ExceptionBreakpoint> = Vec::new();
    let mut i: usize = 0;
    while i < v.len()
        invariant
            i <= v@.len(),
            r@ == ex_remove_session(v@.subrange(0, i as int), sid@),
        decreases v@.len() - i,
    {
        if !(v[i].session_id == *sid) {
            r.push(v[i].clone());
        }
        i = i + 1;
        proof {
            let post = v@.subrange(0, i as int);
            assert(post.drop_last() =~= v@.subrange(0, i - 1));
            assert(post.last() == v@[i - 1]);
        }
    }
    proof {
        assert(v@.subrange(0, v@.len() as int) =~= v@);
    }
    r
}

} // verus!
