//! The command surface of the terminal front end: the parsed command
//! data, the output-mode switches, the configuration record, and the
//! small decisions each command makes before and after its call into
//! the core. The argument parser, the transport, and the printing
//! around these live outside this crate and hand plain values in.

use vstd::prelude::*;
use vstd::string::StrSliceExecFns;

use crate::breakpoints::BpLocation;
use crate::threads::StepDepth;

verus! {

/// Session management commands.
#[derive(Debug)]
pub enum SessionCommands {
    /// Attach to a remote runtime.
    Attach { host: String, port: i32, name: Option<String>, timeout: i32 },
    /// Attach to a local runtime by process id.
    AttachPid { pid: i32, name: Option<String>, timeout: i32 },
    /// Detach from a session.
    Detach { session: Option<String>, terminate: bool },
    /// Get session status.
    Status { session: Option<String> },
    /// List all sessions.
    List,
    /// Select the active session.
    Select { session_id: String },
}

/// Breakpoint commands.
#[derive(Debug)]
pub enum BreakpointCommands {
    /// Add a line or method breakpoint.
    Add {
        class: String,
        line: Option<i32>,
        method: Option<String>,
        condition: Option<String>,
        session: Option<String>,
    },
    /// Remove a breakpoint.
    Remove { breakpoint_id: String },
    /// Enable a breakpoint.
    Enable { breakpoint_id: String },
    /// Disable a breakpoint.
    Disable { breakpoint_id: String },
    /// List all breakpoints.
    List { session: Option<String> },
    /// Clear all breakpoints.
    Clear { session: Option<String> },
}

/// Execution-control commands.
#[derive(Debug)]
pub enum ExecCommands {
    /// Continue execution.
    Continue { session: Option<String> },
    /// Step execution.
    Step { into: bool, over: bool, out: bool, thread: Option<i64>, session: Option<String> },
    /// Suspend execution.
    Suspend { thread: Option<i64>, session: Option<String> },
    /// Resume execution.
    Resume { thread: Option<i64>, session: Option<String> },
}

/// Thread commands.
#[derive(Debug)]
pub enum ThreadCommands {
    /// List all threads.
    List { suspended_only: bool, session: Option<String> },
    /// Select a thread.
    Select { thread_id: i64, session: Option<String> },
    /// Suspend a thread.
    Suspend { thread_id: i64, session: Option<String> },
    /// Resume a thread.
    Resume { thread_id: i64, session: Option<String> },
    /// Get thread info.
    Info { thread: Option<i64>, session: Option<String> },
}

/// Stack-frame commands.
#[derive(Debug)]
pub enum FrameCommands {
    /// List stack frames.
    List { thread: Option<i64>, limit: Option<i32>, session: Option<String> },
    /// Select a stack frame.
    Select { frame_index: i32, session: Option<String> },
    /// Get frame info.
    Info { frame: Option<i32>, thread: Option<i64>, session: Option<String> },
}

/// Variable commands.
#[derive(Debug)]
pub enum VarCommands {
    /// List variables in scope.
    List { thread: Option<i64>, frame: Option<i32>, session: Option<String> },
    /// Get a variable value.
    Get { name: String, thread: Option<i64>, frame: Option<i32>, session: Option<String> },
    /// Set a variable value.
    Assign {
        name: String,
        value: String,
        thread: Option<i64>,
        frame: Option<i32>,
        session: Option<String>,
    },
}

/// Exception-breakpoint commands.
#[derive(Debug)]
pub enum ExceptionCommands {
    /// Break on exceptions of the given type.
    Catch { exception_class: String, caught: bool, uncaught: bool, session: Option<String> },
    /// Stop breaking on the given exception.
    Ignore { id_or_class: String },
    /// List exception breakpoints.
    List { session: Option<String> },
}

/// Daemon-management commands.
#[derive(Debug)]
pub enum ServerCommands {
    /// Start the daemon.
    Start { listen: String, foreground: bool },
    /// Stop the daemon.
    Stop,
    /// Check daemon status.
    Status,
}

/// How results are rendered.
#[derive(Clone, Copy, Debug, PartialEq, Eq, Structural)]
pub enum OutputFormat {
    Text,
    Json,
}

impl Default for OutputFormat {
    /// Text output is the default.
    fn default() -> (r: Self)
        ensures
            r == OutputFormat::Text,
    {
        OutputFormat::Text
    }
}

/// The output mode a command runs under.
#[derive(Debug)]
pub struct Output {
    pub format: OutputFormat,
    pub verbose: bool,
}

impl Output {
    pub fn new(format: OutputFormat, verbose: bool) -> (o: Output)
        ensures
            o.format == format,
            o.verbose == verbose,
    {
        Output { format, verbose }
    }

    /// Whether results are rendered as structured text.
    pub fn is_json(&self) -> (r: bool)
        ensures
            r == (self.format == OutputFormat::Json),
    {
        match self.format {
            OutputFormat::Json => true,
            OutputFormat::Text => false,
        }
    }

    /// Whether results are rendered as plain text.
    pub fn is_text(&self) -> (r: bool)
        ensures
            r == (self.format == OutputFormat::Text),
    {
        match self.format {
            OutputFormat::Text => true,
            OutputFormat::Json => false,
        }
    }
}

/// The persisted configuration of the front end.
#[derive(Debug)]
pub struct Config {
    /// Default server address.
    pub server: String,
    /// Default output format name.
    pub format: Option<String>,
    /// Source paths for source lookup.
    pub source_paths: Vec<String>,
}

impl Default for Config {
    /// An empty configuration.
    fn default() -> (c: Self)
        ensures
            c.server@.len() == 0,
            c.format.is_none(),
            c.source_paths@.len() == 0,
    {
        Config { server: String::new(), format: None, source_paths: Vec::new() }
    }
}

/// The server address used when neither flag nor configuration names
/// one.
pub fn default_server() -> (r: String)
    ensures
        r@ == "tcp://127.0.0.1:5005"@,
{
    "tcp://127.0.0.1:5005".to_owned()
}

/// The step depth a step command's flags ask for: into wins, then
/// out; stepping over is the default.
pub fn step_depth_from_flags(into: bool, over: bool, out: bool) -> (d: StepDepth)
    ensures
        into ==> d == StepDepth::Into,
        !into && out ==> d == StepDepth::Out,
        !into && !out ==> d == StepDepth::Over,
{
    if into {
        StepDepth::Into
    } else if out {
        StepDepth::Out
    } else {
        StepDepth::Over
    }
}

/// The breakpoint location an add command asks for: a line breakpoint
/// when a line is given, else a method breakpoint when a method is
/// given, else nothing — the command must name one of the two.
pub fn choose_breakpoint_location(
    class: &String,
    line: &Option<i32>,
    method: &Option<String>,
) -> (r: Option<BpLocation>)
    ensures
        match *line {
            Some(l) => r matches Some(loc) && loc == (BpLocation::Line {
                class_name: *class,
                line: l,
            }),
            None => match *method {
                Some(m) => r matches Some(loc) && loc == (BpLocation::Method {
                    class_name: *class,
                    method_name: m,
                    signature: None,
                }),
                None => r.is_none(),
            },
        },
{
    match line {
        Some(l) => Some(BpLocation::Line { class_name: class.clone(), line: *l }),
        None => {
            match method {
                Some(m) => Some(
                    BpLocation::Method {
                        class_name: class.clone(),
                        method_name: m.clone(),
                        signature: None,
                    },
                ),
                None => None,
            }
        },
    }
}

/// Whether `p` is a prefix of `s`.
pub open spec fn is_prefix_of(p: Seq<char>, s: Seq<char>) -> bool {
    s.len() >= p.len() && s.subrange(0, p.len() as int) == p
}

/// Test a string prefix, character by character.
pub fn str_has_prefix(s: &str, p: &str) -> (r: bool)
    ensures
        r == is_prefix_of(p@, s@),
{
    let n = p.unicode_len();
    if s.unicode_len() < n {
        proof {
            assert(!is_prefix_of(p@, s@));
        }
        return false;
    }
    let mut i: usize = 0;
    while i < n
        invariant
            n == p@.len(),
            s@.len() >= n,
            i <= n,
            forall|j: int| 0 <= j < i ==> s@[j] == p@[j],
        decreases n - i,
    {
        if s.get_char(i) != p.get_char(i) {
            proof {
                assert(s@.subrange(0, p@.len() as int)[i as int] != p@[i as int]);
            }
            return false;
        }
        i = i + 1;
    }
    proof {
        assert(s@.subrange(0, p@.len() as int) =~= p@);
    }
    true
}

/// Where the front end connects: a local socket path or a TCP
/// endpoint.
#[derive(Debug)]
pub enum ServerAddr {
    Unix { path: String },
    Tcp { addr: String },
}

/// Split a server address into its transport and endpoint: a
/// `unix://` prefix names a local socket path, a `tcp://` prefix — or
/// no prefix at all — a TCP endpoint.
pub fn parse_server_addr(addr: &str) -> (r: ServerAddr)
    ensures
        is_prefix_of("unix://"@, addr@) ==> (r matches ServerAddr::Unix { path } && path@
            == addr@.subrange("unix://"@.len() as int, addr@.len() as int)),
        !is_prefix_of("unix://"@, addr@) && is_prefix_of("tcp://"@, addr@) ==> (
        r matches ServerAddr::Tcp { addr: a } && a@ == addr@.subrange(
            "tcp://"@.len() as int,
            addr@.len() as int,
        )),
        !is_prefix_of("unix://"@, addr@) && !is_prefix_of("tcp://"@, addr@) ==> (
        r matches ServerAddr::Tcp { addr: a } && a@ == addr@),
{
    proof {
        reveal_strlit("unix://");
        reveal_strlit("tcp://");
    }
    if str_has_prefix(addr, "unix://") {
        let path = addr.substring_char(7, addr.unicode_len()).to_owned();
        ServerAddr::Unix { path }
    } else if str_has_prefix(addr, "tcp://") {
        let rest = addr.substring_char(6, addr.unicode_len()).to_owned();
        ServerAddr::Tcp { addr: rest }
    } else {
        ServerAddr::Tcp { addr: addr.to_owned() }
    }
}

/// Whether a character is a decimal digit.
pub open spec fn is_digit(c: char) -> bool {
    48 <= c as int && c as int <= 57
}

/// The numeric value of one digit character.
pub open spec fn digit_val(c: char) -> int {
    c as int - 48
}

/// The number a digit string denotes, most significant digit first.
pub open spec fn digits_val(s: Seq<char>) -> int
    decreases s.len(),
{
    if s.len() == 0 {
        0
    } else {
        digits_val(s.drop_last()) * 10 + digit_val(s.last())
    }
}

/// A digit string denotes a nonnegative number.
pub proof fn lemma_digits_val_nonneg(s: Seq<char>)
    requires
        forall|i: int| 0 <= i < s.len() ==> is_digit(s[i]),
    ensures
        digits_val(s) >= 0,
    decreases s.len(),
{
    if s.len() > 0 {
        assert(forall|i: int| 0 <= i < s.len() - 1 ==> s.drop_last()[i] == s[i]);
        lemma_digits_val_nonneg(s.drop_last());
    }
}

/// Appending digits never shrinks the denoted number.
pub proof fn lemma_digits_val_prefix_le(s: Seq<char>, i: int)
    requires
        forall|k: int| 0 <= k < s.len() ==> is_digit(s[k]),
        0 <= i <= s.len(),
    ensures
        digits_val(s.subrange(0, i)) <= digits_val(s),
    decreases s.len() - i,
{
    if i < s.len() {
        let t = s.subrange(0, i + 1);
        assert(t.drop_last() =~= s.subrange(0, i));
        lemma_digits_val_nonneg(s.subrange(0, i));
        assert(digits_val(s.subrange(0, i)) <= digits_val(t));
        lemma_digits_val_prefix_le(s, i + 1);
    } else {
        assert(s.subrange(0, i) =~= s);
    }
}

/// Parse a decimal number. The result exists exactly when the string
/// is nonempty, holds digits only, and denotes a value that fits.
pub fn parse_u64(s: &str) -> (r: Option<u64>)
    ensures
        match r {
            Some(v) => {
                &&& s@.len() > 0
                &&& forall|i: int| 0 <= i < s@.len() ==> is_digit(s@[i])
                &&& v == digits_val(s@)
            },
            None => s@.len() == 0 || (exists|i: int| 0 <= i < s@.len() && !is_digit(s@[i]))
                || digits_val(s@) > u64::MAX,
        },
{
    let n = s.unicode_len();
    if n == 0 {
        return None;
    }
    let mut v: u64 = 0;
    let mut i: usize = 0;
    while i < n
        invariant
            n == s@.len(),
            i <= n,
            forall|j: int| 0 <= j < i ==> is_digit(s@[j]),
            v == digits_val(s@.subrange(0, i as int)),
        decreases n - i,
    {
        let c = s.get_char(i);
        let cu: u32 = c as u32;
        if !(cu >= 48 && cu <= 57) {
            return None;
        }
        let d: u64 = (cu - 48) as u64;
        proof {
            assert(d == digit_val(s@[i as int]));
            assert(d <= 9);
            lemma_digits_val_nonneg(s@.subrange(0, i as int));
        }
        if v > (u64::MAX - d) / 10 {
            proof {
                let pre = s@.subrange(0, i as int);
                let cur = s@.subrange(0, i + 1);
                assert(cur.drop_last() =~= pre);
                assert(cur.last() == s@[i as int]);
                assert(digits_val(cur) == v * 10 + d);
                assert(v * 10 + d > u64::MAX) by (nonlinear_arith)
                    requires
                        v > (u64::MAX - d) / 10,
                        d <= 9,
                        v >= 0,
                ;
                assert(forall|k: int| 0 <= k < cur.len() ==> is_digit(cur[k]));
                lemma_digits_val_prefix_le_full(s@, i + 1);
            }
            return None;
        }
        proof {
            assert(v * 10 + d <= u64::MAX) by (nonlinear_arith)
                requires
                    v <= (u64::MAX - d) / 10,
                    d <= 9,
                    v >= 0,
            ;
        }
        v = v * 10 + d;
        i = i + 1;
        proof {
            let pre = s@.subrange(0, i - 1);
            let cur = s@.subrange(0, i as int);
            assert(cur.drop_last() =~= pre);
            assert(cur.last() == s@[i - 1]);
        }
    }
    proof {
        assert(s@.subrange(0, n as int) =~= s@);
    }
    Some(v)
}

/// When every character so far is a digit and a prefix already
/// overflows, the whole string overflows — provided the rest are
/// digits too. Stated only for the case the parser meets: the prefix
/// value exceeds the maximum.
proof fn lemma_digits_val_prefix_le_full(s: Seq<char>, i: int)
    requires
        forall|k: int| 0 <= k < i ==> is_digit(s[k]),
        0 <= i <= s.len(),
    ensures
        (forall|k: int| 0 <= k < s.len() ==> is_digit(s[k])) ==> digits_val(s.subrange(0, i))
            <= digits_val(s),
{
    if forall|k: int| 0 <= k < s.len() ==> is_digit(s[k]) {
        lemma_digits_val_prefix_le(s, i);
    }
}

} // verus!
