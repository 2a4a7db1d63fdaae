//! Sessions: one attached debugging connection to a target runtime,
//! plus the decimal rendering used to generate fresh session ids.

use vstd::prelude::*;
use vstd::string::StrSliceExecFns;
use vstd::string::StringExecFns;

verus! {

/// What a session is attached to: a remote endpoint or a local
/// process.
#[derive(Debug)]
pub enum TargetDesc {
    Remote { host: String, port: i32 },
    Local { pid: i32 },
}

impl Clone for TargetDesc {
    fn clone(&self) -> (res: Self)
        ensures
            res == *self,
    {
        match self {
            TargetDesc::Remote { host, port } => {
                TargetDesc::Remote { host: host.clone(), port: *port }
            },
            TargetDesc::Local { pid } => TargetDesc::Local { pid: *pid },
        }
    }
}

/// The connection state of a session.
#[derive(Clone, Copy, Debug, PartialEq, Eq, Structural)]
pub enum ConnState {
    /// Reserved while the runtime bridge is confirming the attach.
    Connecting,
    Attached,
    Detached,
    /// The bridge connection was lost; operations that need the bridge
    /// fail until the session is detached.
    Error,
}

/// One attached debugging connection to a target runtime.
#[derive(Debug)]
pub struct Session {
    /// Unique within the registry; caller-assigned or generated.
    pub id: String,
    pub target: TargetDesc,
    pub state: ConnState,
    /// Runtime metadata, populated once attached.
    pub vm_name: String,
    pub vm_version: String,
}

impl Clone for Session {
    fn clone(&self) -> (res: Self)
        ensures
            res == *self,
    {
        Session {
            id: self.id.clone(),
            target: self.target.clone(),
            state: self.state,
            vm_name: self.vm_name.clone(),
            vm_version: self.vm_version.clone(),
        }
    }
}

/// The decimal digit character for one digit value.
pub open spec fn digit_char(d: int) -> char {
    if d == 0 {
        '0'
    } else if d == 1 {
        '1'
    } else if d == 2 {
        '2'
    } else if d == 3 {
        '3'
    } else if d == 4 {
        '4'
    } else if d == 5 {
        '5'
    } else if d == 6 {
        '6'
    } else if d == 7 {
        '7'
    } else if d == 8 {
        '8'
    } else {
        '9'
    }
}

/// The decimal rendering of a nonnegative integer, most significant
/// digit first.
pub open spec fn dec_str(n: int) -> Seq<char>
    decreases n,
{
    if n < 10 {
        seq![digit_char(n)]
    } else {
        dec_str(n / 10).push(digit_char(n % 10))
    }
}

/// The one-character string for a digit value.
fn digit_str(d: u64) -> (r: &'static str)
    requires
        d < 10,
    ensures
        r@ == seq![digit_char(d as int)],
{
    proof {
        reveal_strlit("0");
        reveal_strlit("1");
        reveal_strlit("2");
        reveal_strlit("3");
        reveal_strlit("4");
        reveal_strlit("5");
        reveal_strlit("6");
        reveal_strlit("7");
        reveal_strlit("8");
        reveal_strlit("9");
    }
    let r = if d == 0 {
        "0"
    } else if d == 1 {
        "1"
    } else if d == 2 {
        "2"
    } else if d == 3 {
        "3"
    } else if d == 4 {
        "4"
    } else if d == 5 {
        "5"
    } else if d == 6 {
        "6"
    } else if d == 7 {
        "7"
    } else if d == 8 {
        "8"
    } else {
        "9"
    };
    proof {
        assert(r@ =~= seq![digit_char(d as int)]);
    }
    r
}

/// Render a number in decimal.
pub fn u64_to_dec(n: u64) -> (r: String)
    ensures
        r@ == dec_str(n as int),
    decreases n,
{
    if n < 10 {
        digit_str(n).to_owned()
    } else {
        let mut s = u64_to_dec(n / 10);
        s.append(digit_str(n % 10));
        proof {
            assert(s@ =~= dec_str((n / 10) as int).push(digit_char((n % 10) as int)));
        }
        s
    }
}

/// A fresh session id: `"s"` followed by the attach counter in
/// decimal, extended until it collides with no existing id.
pub fn fresh_session_id(existing: &Vec<String>, counter: u64) -> (r: String)
    ensures
        forall|j: int| 0 <= j < existing@.len() ==> r@ != existing@[j]@,
{
    let mut candidate: String = "s".to_owned();
    candidate.append(u64_to_dec(counter).as_str());
    let mut i: usize = 0;
    let mut collision: bool = false;
    while i < existing.len()
        invariant
            i <= existing@.len(),
            !collision ==> forall|j: int| 0 <= j < i ==> candidate@ != existing@[j]@,
        decreases existing@.len() - i,
    {
        if candidate == existing[i] {
            collision = true;
        }
        i = i + 1;
    }
    if !collision {
        return candidate;
    }
    // The pretty candidate is taken: fall back to an id strictly longer
    // than every existing id, which therefore equals none of them.
    let mut max_len: usize = 0;
    let mut k: usize = 0;
    while k < existing.len()
        invariant
            k <= existing@.len(),
            forall|j: int| 0 <= j < k ==> existing@[j]@.len() <= max_len,
        decreases existing@.len() - k,
    {
        let l = existing[k].as_str().unicode_len();
        if l > max_len {
            max_len = l;
        }
        k = k + 1;
    }
    let mut fallback: String = "s".to_owned();
    while fallback.as_str().unicode_len() <= max_len
        invariant
            forall|j: int| 0 <= j < existing@.len() ==> existing@[j]@.len() <= max_len,
        decreases max_len + 1 - fallback@.len(),
    {
        fallback.append("s");
        proof {
            reveal_strlit("s");
        }
    }
    fallback
}

} // verus!
