//! Structured process execution: the executable policy, the process table
//! with its retention and eviction rules, and the decisions taken around a
//! spawn, a status query, a wait and a termination.
//!
//! Processes are keyed by `(environment_id, session_id, process_id)`: a
//! lookup with the wrong session misses exactly like an unknown id.

use vstd::prelude::*;
use vstd::string::*;

use crate::envvars::{
    contains_key, has_key, child_env, pair_views, path_key, valid_env, valid_pair,
    validate_env_vars,
};
use crate::grants::{clone_strings, string_views};
use crate::names::{normalize_program_name, normalized_program};
use crate::proc_table::{
    count_session, find_entry, is_terminal, kill_session_spec, live_in_session, make_room, new_entry, process_prefix,
    session_count, evict_expired, wait_answer, EntryView, ProcessState, ProcessTable, StreamKind, WaitOutcome,
    with_output,
};
use crate::ids::is_generated_id;
use crate::session::{SessionInfo, WorkdirStatus};
use crate::text::{push_str, str_eq};

pub use crate::envvars::{merge_session_env, sanitize_env};
pub use crate::names::program_basename;

verus! {

/// Default per-stream output cap: 8 MiB.
pub const DEFAULT_MAX_OUTPUT_BYTES: usize = 8388608;

/// Default cap on retained process-table entries.
pub const DEFAULT_MAX_PROCESSES: usize = 128;

/// Default retention for terminal entries, in seconds (1 hour).
pub const DEFAULT_RETENTION_SECS: u64 = 3600;

/// Default bound on post-exit pipe draining, in seconds.
pub const DEFAULT_DRAIN_TIMEOUT_SECS: u64 = 5;

/// Errors from process operations.
#[derive(Debug)]
pub enum ProcessError {
    /// The request failed validation.
    InvalidRequest(String),
    /// The request's environment does not match the managed environment.
    EnvironmentMismatch(String),
    /// The program is rejected by the executable policy.
    DeniedExecutable(String),
    /// Execution is refused because no allow list is configured and
    /// permissive mode is off (fail-closed default).
    PolicyDenied(String),
    /// The process table is full of live processes.
    TooManyProcesses(String),
    /// No process with this id is known.
    NotFound(String),
    /// An OS I/O error occurred.
    Io(String),
    /// An internal daemon error occurred.
    Internal(String),
}

/// Execution policy and resource limits for the process manager.
#[derive(Debug, Clone)]
pub struct ProcessConfig {
    /// Allowed program names. `None` means no allow list: with
    /// `permissive == false` every spawn is refused (fail-closed).
    pub allowed_executables: Option<Vec<String>>,
    /// Explicit opt-in to allow-anything (non-denied) execution when no
    /// allow list is configured. Development only.
    pub permissive: bool,
    /// Denied program names, always enforced, checked first.
    pub denied_executables: Vec<String>,
    /// Per-stream output cap in bytes (stdout and stderr each).
    pub max_output_bytes: usize,
    /// Maximum retained process-table entries.
    pub max_processes: usize,
    /// Maximum retained entries per session (live + retained terminal).
    pub max_processes_per_session: usize,
    /// Age in seconds after which a terminal entry may be evicted.
    pub retention_secs: u64,
    /// Bound in seconds on post-exit pipe draining.
    pub drain_timeout_secs: u64,
}

/// The default deny list: shutdown, reboot, poweroff, halt, init.
pub open spec fn default_denied() -> Seq<Seq<char>> {
    seq!["shutdown"@, "reboot"@, "poweroff"@, "halt"@, "init"@]
}

fn default_denied_list() -> (v: Vec<String>)
    ensures
        string_views(v@) == default_denied(),
{
    let mut v: Vec<String> = Vec::new();
    v.push(String::from_str("shutdown"));
    v.push(String::from_str("reboot"));
    v.push(String::from_str("poweroff"));
    v.push(String::from_str("halt"));
    v.push(String::from_str("init"));
    assert(string_views(v@) =~= default_denied());
    v
}

impl Default for ProcessConfig {
    fn default() -> (c: ProcessConfig)
        ensures
            c.allowed_executables is None,
            !c.permissive,
            string_views(c.denied_executables@) == default_denied(),
            c.max_output_bytes == DEFAULT_MAX_OUTPUT_BYTES,
            c.max_processes == DEFAULT_MAX_PROCESSES,
            c.max_processes_per_session == crate::session::DEFAULT_MAX_PROCESSES_PER_SESSION,
            c.retention_secs == DEFAULT_RETENTION_SECS,
            c.drain_timeout_secs == DEFAULT_DRAIN_TIMEOUT_SECS,
    {
        ProcessConfig {
            allowed_executables: None,
            permissive: false,
            denied_executables: default_denied_list(),
            max_output_bytes: DEFAULT_MAX_OUTPUT_BYTES,
            max_processes: DEFAULT_MAX_PROCESSES,
            max_processes_per_session: crate::session::DEFAULT_MAX_PROCESSES_PER_SESSION,
            retention_secs: DEFAULT_RETENTION_SECS,
            drain_timeout_secs: DEFAULT_DRAIN_TIMEOUT_SECS,
        }
    }
}

/// Some listed name has the same normalized form as `program`.
pub open spec fn name_listed(names: Seq<Seq<char>>, program: Seq<char>) -> bool {
    exists|i: int|
        0 <= i < names.len() && normalized_program(#[trigger] names[i]) == normalized_program(program)
}

/// The outcome of the executable policy for a program.
pub enum PolicyOutcome {
    Allowed,
    Denied,
    Unconfigured,
}

/// The policy decision: the deny list wins; then the allow list when one is
/// configured; otherwise only explicit permissive mode allows.
pub open spec fn policy_outcome(c: ProcessConfig, program: Seq<char>) -> PolicyOutcome {
    if name_listed(string_views(c.denied_executables@), program) {
        PolicyOutcome::Denied
    } else {
        match c.allowed_executables {
            Some(allowed) => if name_listed(string_views(allowed@), program) {
                PolicyOutcome::Allowed
            } else {
                PolicyOutcome::Denied
            },
            None => if c.permissive {
                PolicyOutcome::Allowed
            } else {
                PolicyOutcome::Unconfigured
            },
        }
    }
}

fn name_listed_exec(names: &Vec<String>, program: &str) -> (r: bool)
    ensures
        r == name_listed(string_views(names@), program@),
{
    let target = normalize_program_name(program);
    let mut i: usize = 0;
    while i < names.len()
        invariant
            i <= names@.len(),
            target@ == normalized_program(program@),
            forall|j: int|
                0 <= j < i ==> normalized_program(#[trigger] string_views(names@)[j])
                    != normalized_program(program@),
        decreases names@.len() - i,
    {
        let n = normalize_program_name(names[i].as_str());
        assert(string_views(names@)[i as int] == names@[i as int]@);
        if str_eq(n.as_str(), target.as_str()) {
            return true;
        }
        i = i + 1;
    }
    false
}

impl ProcessConfig {
    /// A config with an allow list of program names plus the default deny
    /// list and default limits.
    pub fn with_allow_list(names: &[&str]) -> (c: ProcessConfig)
        ensures
            c.allowed_executables is Some,
            string_views(c.allowed_executables->0@) == Seq::new(names@.len(), |i: int| names@[i]@),
            !c.permissive,
            string_views(c.denied_executables@) == default_denied(),
            c.max_output_bytes == DEFAULT_MAX_OUTPUT_BYTES,
            c.max_processes == DEFAULT_MAX_PROCESSES,
            c.max_processes_per_session == crate::session::DEFAULT_MAX_PROCESSES_PER_SESSION,
            c.retention_secs == DEFAULT_RETENTION_SECS,
            c.drain_timeout_secs == DEFAULT_DRAIN_TIMEOUT_SECS,
    {
        let mut allowed: Vec<String> = Vec::new();
        let mut i: usize = 0;
        while i < names.len()
            invariant
                i <= names@.len(),
                string_views(allowed@) == Seq::new(i as nat, |j: int| names@[j]@),
            decreases names@.len() - i,
        {
            let ghost before = allowed@;
            let n = String::from_str(names[i]);
            assert(n@ == names@[i as int]@);
            allowed.push(n);
            assert(string_views(allowed@) =~= string_views(before).push(names@[i as int]@));
            assert(string_views(allowed@) =~= Seq::new((i + 1) as nat, |j: int| names@[j]@));
            i = i + 1;
        }
        let mut c = ProcessConfig::default();
        c.allowed_executables = Some(allowed);
        c
    }

    /// Check a program against the execution policy.
    ///
    /// The deny list is always enforced and wins over the allow list; with
    /// an allow list the program must be on it; with none, only permissive
    /// mode allows (`PolicyDenied` otherwise). Names compare in normalized
    /// form, so `/sbin/SHUTDOWN` and `shutdown.exe` are denied by `shutdown`.
    pub fn check_policy(&self, program: &str) -> (r: Result<(), ProcessError>)
        ensures
            policy_outcome(*self, program@) is Allowed ==> r is Ok,
            policy_outcome(*self, program@) is Denied ==> r matches Err(ProcessError::DeniedExecutable(_)),
            policy_outcome(*self, program@) is Unconfigured ==> r matches Err(
                ProcessError::PolicyDenied(_),
            ),
    {
        if name_listed_exec(&self.denied_executables, program) {
            let base = normalize_program_name(program);
            let mut m = String::from_str("program \"");
            push_str(&mut m, base.as_str());
            push_str(&mut m, "\" is denied by execution policy");
            return Err(ProcessError::DeniedExecutable(m));
        }
        match &self.allowed_executables {
            Some(allowed) => {
                if !name_listed_exec(allowed, program) {
                    let base = normalize_program_name(program);
                    let mut m = String::from_str("program \"");
                    push_str(&mut m, base.as_str());
                    push_str(&mut m, "\" is not in the allowed executable list");
                    return Err(ProcessError::DeniedExecutable(m));
                }
                Ok(())
            },
            None => {
                if self.permissive {
                    Ok(())
                } else {
                    Err(ProcessError::PolicyDenied(String::from_str("no allowed executables configured")))
                }
            },
        }
    }
}


/// Upper bound on a wait's timeout, in seconds.
pub const MAX_WAIT_TIMEOUT_SECS: u64 = 3600;

/// A structured execution request: a program and its argv, never a shell
/// line.
#[derive(Debug, Clone)]
pub struct ExecuteRequest {
    pub environment_id: String,
    pub session_id: String,
    pub program: String,
    pub args: Vec<String>,
    /// Environment-relative working directory; empty inherits the session's.
    pub working_directory: String,
    pub env_vars: Vec<(String, String)>,
}

/// A request passes validation: a program is named and its variables are
/// acceptable (no `PATH`, no `=` or NUL in keys, no NUL in values).
pub open spec fn execute_request_valid(req: ExecuteRequest) -> bool {
    req.program@.len() > 0 && valid_env(pair_views(req.env_vars@))
}

/// A wait request's timeout is within `1..=MAX_WAIT_TIMEOUT_SECS`.
pub open spec fn wait_timeout_valid(timeout_secs: u64) -> bool {
    1 <= timeout_secs <= MAX_WAIT_TIMEOUT_SECS
}

/// Validate a wait timeout.
pub fn validate_wait_timeout(timeout_secs: u64) -> (r: Result<(), ProcessError>)
    ensures
        r is Ok <==> wait_timeout_valid(timeout_secs),
        r is Err ==> r matches Err(ProcessError::InvalidRequest(_)),
{
    if timeout_secs == 0 {
        return Err(ProcessError::InvalidRequest(String::from_str("invalid request: timeout_secs must be at least 1")));
    }
    if timeout_secs > MAX_WAIT_TIMEOUT_SECS {
        let mut m = String::from_str("invalid request: timeout_secs must be at most ");
        crate::text::push_decimal(&mut m, MAX_WAIT_TIMEOUT_SECS);
        return Err(ProcessError::InvalidRequest(m));
    }
    Ok(())
}

/// What to spawn once every check passed.
#[derive(Debug)]
pub struct SpawnPlan {
    pub program: String,
    pub args: Vec<String>,
    /// The effective environment-relative working directory, still to be
    /// resolved through the filesystem backend.
    pub working_directory: String,
    /// Session variables under request variables, loader keys stripped.
    pub env_vars: Vec<(String, String)>,
}

/// The working directory a spawn uses: the request's, or the session's
/// when the request leaves it empty.
pub open spec fn effective_workdir(req: ExecuteRequest, session: SessionInfo) -> Seq<char> {
    if req.working_directory@.len() == 0 {
        session.working_directory@
    } else {
        req.working_directory@
    }
}

/// The error a spawn gets for a working directory that is not an existing
/// directory inside the roots (remote-facing errors stay generic).
pub open spec fn workdir_error_kind(w: WorkdirStatus, e: ProcessError) -> bool {
    match w {
        WorkdirStatus::Directory => false,
        WorkdirStatus::NoBackend => e matches ProcessError::Internal(m) && m@ == "filesystem backend not configured"@,
        WorkdirStatus::OtherError(t) => e matches ProcessError::Io(m) && m@ == "working_directory error: "@ + t@,
        WorkdirStatus::Escapes => e matches ProcessError::InvalidRequest(m) && m@
            == "working_directory escapes allowed boundary"@,
        WorkdirStatus::Unresolvable => e matches ProcessError::InvalidRequest(m) && m@ == "invalid working_directory"@,
        WorkdirStatus::Missing => e matches ProcessError::InvalidRequest(m) && m@
            == "working_directory does not exist"@,
        WorkdirStatus::PermissionDenied => e matches ProcessError::InvalidRequest(m) && m@
            == "working_directory permission denied"@,
        WorkdirStatus::NotADirectory => e matches ProcessError::InvalidRequest(m) && m@
            == "working_directory is not a directory"@,
    }
}

/// The refusal of a `PATH` variable in either layer of a spawn's
/// environment.
pub open spec fn path_refused_message() -> Seq<char> {
    "env var PATH must not be supplied: programs resolve against the daemon's trusted PATH"@
}

/// Map what the filesystem said about the working directory to the spawn
/// error, or `None` when it is an existing directory.
pub fn workdir_error(w: &WorkdirStatus) -> (r: Option<ProcessError>)
    ensures
        w is Directory <==> r is None,
        r matches Some(e) ==> workdir_error_kind(*w, e),
{
    match w {
        WorkdirStatus::Directory => None,
        WorkdirStatus::NoBackend => Some(ProcessError::Internal(String::from_str("filesystem backend not configured"))),
        WorkdirStatus::Escapes => Some(
            ProcessError::InvalidRequest(String::from_str("working_directory escapes allowed boundary")),
        ),
        WorkdirStatus::Unresolvable => Some(ProcessError::InvalidRequest(String::from_str("invalid working_directory"))),
        WorkdirStatus::Missing => Some(ProcessError::InvalidRequest(String::from_str("working_directory does not exist"))),
        WorkdirStatus::PermissionDenied => Some(
            ProcessError::InvalidRequest(String::from_str("working_directory permission denied")),
        ),
        WorkdirStatus::OtherError(e) => {
            let mut m = String::from_str("working_directory error: ");
            push_str(&mut m, e.as_str());
            Some(ProcessError::Io(m))
        },
        WorkdirStatus::NotADirectory => Some(
            ProcessError::InvalidRequest(String::from_str("working_directory is not a directory")),
        ),
    }
}

/// Owns the daemon's process table for one environment.
pub struct ProcessManager {
    environment_id: String,
    config: ProcessConfig,
    table: ProcessTable,
}

impl ProcessManager {
    /// The managed environment.
    pub closed spec fn spec_environment(&self) -> Seq<char> {
        self.environment_id@
    }

    /// The execution policy and limits.
    pub closed spec fn spec_config(&self) -> ProcessConfig {
        self.config
    }

    /// The process table's entries.
    pub closed spec fn entries(&self) -> Seq<EntryView> {
        self.table.view_entries()
    }

    /// The table is well formed.
    pub closed spec fn wf(&self) -> bool {
        self.table.wf()
    }

    /// Create a manager for one environment with an empty table. A
    /// fail-closed configuration (no allow list, not permissive) is legal
    /// and refuses every spawn.
    pub fn new(environment_id: String, config: ProcessConfig) -> (m: ProcessManager)
        ensures
            m.wf(),
            m.entries().len() == 0,
            m.spec_environment() == environment_id@,
            m.spec_config() == config,
    {
        ProcessManager { environment_id, config, table: ProcessTable::new() }
    }

    /// The execution policy configuration.
    pub fn config(&self) -> (c: &ProcessConfig)
        ensures
            *c == self.spec_config(),
    {
        &self.config
    }

    /// Number of retained entries (running + retained terminal).
    pub fn process_count(&self) -> (n: usize)
        ensures
            n == self.entries().len(),
    {
        self.table.len()
    }

    /// Check a structured execution request against a live session (the
    /// one the caller just touched) and plan the spawn.
    ///
    /// In order: request validation; the environment; the session binding
    /// (the request's session and the session's environment, a mismatch
    /// being an internal error, not a client-facing oracle); the executable
    /// policy; `PATH` in either variable layer. The plan's working directory
    /// is the request's, or the session's when the request's is empty; its
    /// variables are the session's under the request's, loader keys
    /// stripped.
    pub fn prepare_start(&self, req: &ExecuteRequest, session: &SessionInfo) -> (r: Result<SpawnPlan, ProcessError>)
        ensures
            !execute_request_valid(*req) ==> r matches Err(ProcessError::InvalidRequest(_)),
            execute_request_valid(*req) && req.environment_id@ != self.spec_environment() ==> r matches Err(
                ProcessError::EnvironmentMismatch(_),
            ),
            execute_request_valid(*req) && req.environment_id@ == self.spec_environment() && (req.session_id@
                != session.session_id@ || session.environment_id@ != self.spec_environment()) ==> r matches Err(
                ProcessError::Internal(_),
            ),
            execute_request_valid(*req) && req.environment_id@ == self.spec_environment() && req.session_id@
                == session.session_id@ && session.environment_id@ == self.spec_environment() ==> {
                match policy_outcome(self.spec_config(), req.program@) {
                    PolicyOutcome::Denied => r matches Err(ProcessError::DeniedExecutable(_)),
                    PolicyOutcome::Unconfigured => r matches Err(ProcessError::PolicyDenied(_)),
                    PolicyOutcome::Allowed => if has_key(pair_views(session.env_vars@), path_key()) {
                        r matches Err(ProcessError::InvalidRequest(m)) && m@ == path_refused_message()
                    } else {
                        r matches Ok(plan) && {
                            &&& plan.program@ == req.program@
                            &&& string_views(plan.args@) == string_views(req.args@)
                            &&& plan.working_directory@ == effective_workdir(*req, *session)
                            &&& pair_views(plan.env_vars@) == child_env(
                                pair_views(session.env_vars@) + pair_views(req.env_vars@),
                            )
                        }
                    },
                }
            },
    {
        if req.program.unicode_len() == 0 {
            return Err(ProcessError::InvalidRequest(String::from_str("invalid request: program must not be empty")));
        }
        match validate_env_vars(req.env_vars.as_slice()) {
            Ok(()) => {},
            Err(m) => {
                let mut msg = String::from_str("invalid request: ");
                push_str(&mut msg, m.as_str());
                return Err(ProcessError::InvalidRequest(msg));
            },
        }
        if !str_eq(req.environment_id.as_str(), self.environment_id.as_str()) {
            let mut m = String::from_str("requested environment '");
            push_str(&mut m, req.environment_id.as_str());
            push_str(&mut m, "' does not match managed environment '");
            push_str(&mut m, self.environment_id.as_str());
            push_str(&mut m, "'");
            return Err(ProcessError::EnvironmentMismatch(m));
        }
        if !str_eq(req.session_id.as_str(), session.session_id.as_str()) {
            return Err(ProcessError::Internal(String::from_str(
                "session binding mismatch: touched session differs from request session",
            )));
        }
        if !str_eq(session.environment_id.as_str(), self.environment_id.as_str()) {
            return Err(ProcessError::Internal(String::from_str("session belongs to a different environment")));
        }
        match self.config.check_policy(req.program.as_str()) {
            Ok(()) => {},
            Err(e) => {
                return Err(e);
            },
        }
        let path = "PATH";
        proof {
            reveal_strlit("PATH");
        }
        assert(path@ =~= path_key());
        let in_request = contains_key(req.env_vars.as_slice(), path);
        if in_request {
            proof {
                let pv = pair_views(req.env_vars@);
                let i = choose|i: int| 0 <= i < pv.len() && #[trigger] pv[i].0 == path@;
                assert(valid_pair(pv[i]));
            }
        }
        if in_request || contains_key(session.env_vars.as_slice(), path) {
            return Err(ProcessError::InvalidRequest(String::from_str(
                "env var PATH must not be supplied: programs resolve against the daemon's trusted PATH",
            )));
        }
        let working_directory = if req.working_directory.unicode_len() == 0 {
            session.working_directory.clone()
        } else {
            req.working_directory.clone()
        };
        let args = clone_strings(&req.args);
        Ok(SpawnPlan {
            program: req.program.clone(),
            args,
            working_directory,
            env_vars: merge_session_env(session.env_vars.as_slice(), req.env_vars.as_slice()),
        })
    }

    /// Reserve the table slot for a planned spawn (see
    /// [`ProcessTable::reserve`]): evictions, the per-session cap, the global
    /// bound, a fresh `proc-` id.
    pub fn reserve(&mut self, req: &ExecuteRequest, now: u64) -> (r: Result<String, ProcessError>)
        requires
            old(self).wf(),
        ensures
            final(self).wf(),
            final(self).spec_environment() == old(self).spec_environment(),
            final(self).spec_config() == old(self).spec_config(),
            ({
                let c = old(self).spec_config();
                let t1 = evict_expired(old(self).entries(), c.retention_secs as nat, now as nat);
                let (room, t2) = make_room(t1, c, now as nat);
                let env = req.environment_id@;
                let session = req.session_id@;
                if session_count(t1, env, session) >= c.max_processes_per_session {
                    r matches Err(ProcessError::TooManyProcesses(_)) && final(self).entries() == t1
                } else if !room {
                    r matches Err(ProcessError::TooManyProcesses(_)) && final(self).entries() == t2
                } else {
                    ||| r matches Err(ProcessError::Internal(_)) && final(self).entries() == t2
                    ||| r matches Ok(pid) && {
                        &&& is_generated_id(pid@, process_prefix())
                        &&& find_entry(t2, env, session, pid@) < 0
                        &&& final(self).entries() == t2.push(new_entry(env, session, pid@, req.program@, now as nat))
                        &&& final(self).entries().len() <= c.max_processes
                        &&& session_count(final(self).entries(), env, session) <= c.max_processes_per_session
                    }
                }
            }),
    {
        self.table.reserve(
            &self.config,
            req.environment_id.as_str(),
            req.session_id.as_str(),
            req.program.as_str(),
            now,
        )
    }

    /// Release the slot of a spawn that failed after reservation.
    pub fn release(&mut self, env: &str, session: &str, pid: &str)
        requires
            old(self).wf(),
        ensures
            final(self).wf(),
            final(self).spec_environment() == old(self).spec_environment(),
            final(self).spec_config() == old(self).spec_config(),
            ({
                let i = find_entry(old(self).entries(), env@, session@, pid@);
                final(self).entries() == if i < 0 {
                    old(self).entries()
                } else {
                    old(self).entries().remove(i)
                }
            }),
    {
        self.table.release(env, session, pid)
    }

    /// The state of a process, by its full key; any miss is `NotFound`.
    pub fn status(&self, env: &str, session: &str, pid: &str) -> (r: Result<ProcessState, ProcessError>)
        ensures
            ({
                let i = find_entry(self.entries(), env@, session@, pid@);
                if i < 0 {
                    r matches Err(ProcessError::NotFound(_))
                } else {
                    r matches Ok(s) && s@ == self.entries()[i].state
                }
            }),
    {
        self.table.status(env, session, pid)
    }

    /// One poll of a wait (see [`ProcessTable::wait_poll`]).
    pub fn wait_poll(&self, env: &str, session: &str, pid: &str, deadline_passed: bool) -> (r: Result<
        Option<WaitOutcome>,
        ProcessError,
    >)
        ensures
            ({
                let i = find_entry(self.entries(), env@, session@, pid@);
                if i < 0 {
                    r matches Err(ProcessError::NotFound(_))
                } else {
                    let e = self.entries()[i];
                    if is_terminal(e) || deadline_passed {
                        r matches Ok(Some(w)) && wait_answer(e, deadline_passed, w)
                    } else {
                        r matches Ok(None)
                    }
                }
            }),
    {
        self.table.wait_poll(env, session, pid, deadline_passed)
    }

    /// The terminate decision: request the kill of a live process
    /// (`Ok(true)`), leave a terminal one alone (`Ok(false)`).
    pub fn request_kill(&mut self, env: &str, session: &str, pid: &str) -> (r: Result<bool, ProcessError>)
        requires
            old(self).wf(),
        ensures
            final(self).wf(),
            final(self).spec_environment() == old(self).spec_environment(),
            final(self).spec_config() == old(self).spec_config(),
            ({
                let t = old(self).entries();
                let i = find_entry(t, env@, session@, pid@);
                if i < 0 {
                    r matches Err(ProcessError::NotFound(_)) && final(self).entries() == t
                } else if is_terminal(t[i]) {
                    r == Ok::<bool, ProcessError>(false) && final(self).entries() == t
                } else {
                    r == Ok::<bool, ProcessError>(true) && final(self).entries() == t.update(
                        i,
                        EntryView { kill_requested: true, ..t[i] },
                    )
                }
            }),
    {
        self.table.request_kill(env, session, pid)
    }

    /// Session cascade: request the kill of every live process of the
    /// session; returns how many kills were requested.
    pub fn kill_session_processes(&mut self, env: &str, session: &str) -> (n: usize)
        requires
            old(self).wf(),
        ensures
            final(self).wf(),
            final(self).spec_environment() == old(self).spec_environment(),
            final(self).spec_config() == old(self).spec_config(),
            final(self).entries() == kill_session_spec(old(self).entries(), env@, session@),
            n == live_in_session(old(self).entries(), env@, session@),
    {
        self.table.kill_session_processes(env, session)
    }

    /// Number of entries of one session (live + retained terminal).
    pub fn count_for_session(&self, session_id: &str) -> (n: usize)
        ensures
            n == count_session(self.entries(), session_id@),
    {
        self.table.count_for_session(session_id)
    }

    /// Append a chunk read from a process's pipe, under the output cap.
    pub fn append_output(&mut self, env: &str, session: &str, pid: &str, kind: StreamKind, chunk: &[u8])
        requires
            old(self).wf(),
        ensures
            final(self).wf(),
            final(self).spec_environment() == old(self).spec_environment(),
            final(self).spec_config() == old(self).spec_config(),
            ({
                let t = old(self).entries();
                let i = find_entry(t, env@, session@, pid@);
                final(self).entries() == if i < 0 {
                    t
                } else {
                    t.update(i, with_output(t[i], kind, chunk@, old(self).spec_config().max_output_bytes as nat))
                }
            }),
    {
        let cap = self.config.max_output_bytes;
        self.table.append_output(env, session, pid, kind, chunk, cap)
    }

    /// Mark a process's output incomplete (drain timed out).
    pub fn mark_truncated(&mut self, env: &str, session: &str, pid: &str)
        requires
            old(self).wf(),
        ensures
            final(self).wf(),
            final(self).spec_environment() == old(self).spec_environment(),
            final(self).spec_config() == old(self).spec_config(),
            ({
                let t = old(self).entries();
                let i = find_entry(t, env@, session@, pid@);
                final(self).entries() == if i < 0 {
                    t
                } else {
                    t.update(i, EntryView { truncated: true, ..t[i] })
                }
            }),
    {
        self.table.mark_truncated(env, session, pid)
    }

    /// Publish a process's final state at `now`.
    pub fn finish(&mut self, env: &str, session: &str, pid: &str, status: ProcessState, now: u64)
        requires
            old(self).wf(),
        ensures
            final(self).wf(),
            final(self).spec_environment() == old(self).spec_environment(),
            final(self).spec_config() == old(self).spec_config(),
            ({
                let t = old(self).entries();
                let i = find_entry(t, env@, session@, pid@);
                final(self).entries() == if i < 0 {
                    t
                } else {
                    t.update(i, EntryView { state: status@, finished_at: Some(now as nat), ..t[i] })
                }
            }),
    {
        self.table.finish(env, session, pid, status, now)
    }

    /// Whether a kill was requested for a process (the supervisor polls it).
    pub fn kill_requested(&self, env: &str, session: &str, pid: &str) -> (r: bool)
        ensures
            ({
                let i = find_entry(self.entries(), env@, session@, pid@);
                r == (i >= 0 && self.entries()[i].kill_requested)
            }),
    {
        self.table.kill_requested(env, session, pid)
    }
}


/// The executable policy: the deny list always wins, even over an allow
/// list naming the same program; with an allow list only its members run;
/// with none, nothing runs unless permissive mode was chosen
/// (fail-closed).
pub proof fn law_policy_deny_wins_and_fails_closed(c: ProcessConfig, program: Seq<char>)
    ensures
        name_listed(string_views(c.denied_executables@), program) ==> policy_outcome(c, program) is Denied,
        policy_outcome(c, program) is Allowed ==> !name_listed(string_views(c.denied_executables@), program) && (
        match c.allowed_executables {
            Some(a) => name_listed(string_views(a@), program),
            None => c.permissive,
        }),
        c.allowed_executables is None && !c.permissive ==> !(policy_outcome(c, program) is Allowed),
{
}

} // verus!
