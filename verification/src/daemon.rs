//! The daemon's state and the decisions taken on each request: the
//! environment binding, the unknown-principal gate, session liveness and
//! ownership, the kill-on-expiry cascade, and the order in which a request
//! is checked.
//!
//! Every request names an environment, checked first. Session-scoped
//! requests touch their session (bumping its activity); expired sessions
//! found on the way have their live processes killed before the answer.

use vstd::prelude::*;
use vstd::string::*;

use crate::auth::Caller;
use crate::authz::{
    caller_fp, effective_grants, fs_error_to_rpc, known_principal, process_error_to_rpc, session_error_to_rpc,
    Authz, RpcError, RpcErrorView,
};
use crate::fs::{
    canonical_views, probe_views, relativize_from, resolve_no_follow_spec, resolve_spec, Canonical,
    FilesystemBackend, FilesystemConfig, ResolveProbe, Resolved,
};
use crate::grants::{spec_allow_fs, FsGrantKind};
use crate::hex::{hex_digit_check, is_hex_digit};
use crate::process::{
    execute_request_valid, policy_outcome, wait_timeout_valid, ExecuteRequest, PolicyOutcome, SpawnPlan,
};
use crate::proc_table::{find_entry, ProcessState, StreamKind, WaitOutcome};
use crate::names::ascii_lower;
use crate::process::{ProcessConfig, ProcessManager};
use crate::proc_table::{kill_session_spec, EntryView};
use crate::session::{
    id_views, touch_spec, terminate_spec, Addressed, CreateSessionRequest, SessionConfig, SessionError, SessionInfo,
    SessionManager, SessionView, Viewer, WorkdirStatus,
};
use crate::text::{chars_of, push_str, str_eq};

verus! {

/// Daemon configuration (from the command line).
#[derive(Debug, Clone)]
pub struct DaemonConfig {
    pub environment_id: String,
    pub port: u16,
    pub max_sessions: usize,
    /// Per-session process cap shared by both managers; `None`: the default.
    pub max_processes_per_session: Option<usize>,
    pub session_idle_timeout_secs: u64,
    pub session_max_lifetime_secs: u64,
    pub server_cert_path: Option<String>,
    pub server_key_path: Option<String>,
    pub client_ca_path: Option<String>,
    /// The one allowed filesystem root, if any.
    pub allowed_root: Option<String>,
    pub allowed_executables: Option<Vec<String>>,
    pub permissive_exec: bool,
}

impl Default for DaemonConfig {
    fn default() -> (c: DaemonConfig)
        ensures
            c.environment_id@ == "default"@,
            c.port == 9000,
            c.max_sessions == 64,
            c.max_processes_per_session is None,
            c.session_idle_timeout_secs == crate::session::DEFAULT_SESSION_IDLE_TIMEOUT_SECS,
            c.session_max_lifetime_secs == crate::session::DEFAULT_SESSION_MAX_LIFETIME_SECS,
            c.server_cert_path is None,
            c.server_key_path is None,
            c.client_ca_path is None,
            c.allowed_root is None,
            c.allowed_executables is None,
            !c.permissive_exec,
    {
        DaemonConfig {
            environment_id: String::from_str("default"),
            port: 9000,
            max_sessions: 64,
            max_processes_per_session: None,
            session_idle_timeout_secs: crate::session::DEFAULT_SESSION_IDLE_TIMEOUT_SECS,
            session_max_lifetime_secs: crate::session::DEFAULT_SESSION_MAX_LIFETIME_SECS,
            server_cert_path: None,
            server_key_path: None,
            client_ca_path: None,
            allowed_root: None,
            allowed_executables: None,
            permissive_exec: false,
        }
    }
}

/// Errors of the daemon as a whole.
#[derive(Debug)]
pub enum DaemonError {
    BindFailed(String),
    TlsConfig(String),
    SessionLimitReached,
    Unauthorized,
}

impl DaemonError {
    /// The human-readable message.
    pub fn message(&self) -> (m: String)
        ensures
            match self {
                DaemonError::BindFailed(e) => m@ == "bind failed: "@ + e@,
                DaemonError::TlsConfig(e) => m@ == "TLS configuration failed: "@ + e@,
                DaemonError::SessionLimitReached => m@ == "session limit reached"@,
                DaemonError::Unauthorized => m@ == "unauthorized"@,
            },
    {
        match self {
            DaemonError::BindFailed(e) => {
                let mut m = String::from_str("bind failed: ");
                push_str(&mut m, e.as_str());
                m
            },
            DaemonError::TlsConfig(e) => {
                let mut m = String::from_str("TLS configuration failed: ");
                push_str(&mut m, e.as_str());
                m
            },
            DaemonError::SessionLimitReached => String::from_str("session limit reached"),
            DaemonError::Unauthorized => String::from_str("unauthorized"),
        }
    }
}

/// An operation an environment may advertise.
#[derive(Debug, Clone, Copy, PartialEq, Eq, Hash)]
pub enum Capability {
    FilesystemRead,
    FilesystemWrite,
    FilesystemList,
    ProcessExecute,
    ProcessInspect,
    ProcessTerminate,
}

/// The advertised operations, derived from the configured backends:
/// reading and listing with a filesystem backend, and always the process
/// operations. Writing is not advertised.
pub open spec fn advertised(fs_configured: bool) -> Seq<Capability> {
    if fs_configured {
        seq![
            Capability::FilesystemRead,
            Capability::FilesystemList,
            Capability::ProcessExecute,
            Capability::ProcessInspect,
            Capability::ProcessTerminate,
        ]
    } else {
        seq![Capability::ProcessExecute, Capability::ProcessInspect, Capability::ProcessTerminate]
    }
}

/// The advertised operations for the configured backends.
pub fn advertised_capabilities(fs_configured: bool) -> (caps: Vec<Capability>)
    ensures
        caps@ == advertised(fs_configured),
{
    let mut caps: Vec<Capability> = Vec::new();
    if fs_configured {
        caps.push(Capability::FilesystemRead);
        caps.push(Capability::FilesystemList);
    }
    caps.push(Capability::ProcessExecute);
    caps.push(Capability::ProcessInspect);
    caps.push(Capability::ProcessTerminate);
    assert(caps@ =~= advertised(fs_configured));
    caps
}

/// The platform a daemon runs on.
#[derive(Debug, Clone, PartialEq, Eq)]
pub enum Platform {
    Debian,
    Ubuntu,
    GenericLinux,
    Unknown(String),
}

/// `needle` occurs in `hay`.
pub open spec fn contains_seq(hay: Seq<char>, needle: Seq<char>) -> bool {
    exists|i: int| 0 <= i && i + needle.len() <= hay.len() && #[trigger] hay.subrange(i, i + needle.len()) == needle
}

/// What a platform denotes: its variant, and the OS name of an unknown one.
pub enum PlatformView {
    Debian,
    Ubuntu,
    GenericLinux,
    Unknown(Seq<char>),
}

impl View for Platform {
    type V = PlatformView;

    open spec fn view(&self) -> PlatformView {
        match self {
            Platform::Debian => PlatformView::Debian,
            Platform::Ubuntu => PlatformView::Ubuntu,
            Platform::GenericLinux => PlatformView::GenericLinux,
            Platform::Unknown(name) => PlatformView::Unknown(name@),
        }
    }
}

/// The platform: on Linux, Debian or Ubuntu when `/etc/os-release` (read
/// by the caller; `None` when unreadable) names it, in that order of
/// precedence, case-insensitively; generic Linux otherwise. Any other OS is
/// reported by name.
pub open spec fn platform_of(os: Seq<char>, os_release: Option<Seq<char>>) -> PlatformView {
    if os == "linux"@ {
        match os_release {
            Some(c) => if contains_seq(ascii_lower(c), "debian"@) {
                PlatformView::Debian
            } else if contains_seq(ascii_lower(c), "ubuntu"@) {
                PlatformView::Ubuntu
            } else {
                PlatformView::GenericLinux
            },
            None => PlatformView::GenericLinux,
        }
    } else {
        PlatformView::Unknown(os)
    }
}

/// The view of an optional borrowed string.
pub open spec fn opt_str_view(s: Option<&str>) -> Option<Seq<char>> {
    match s {
        Some(c) => Some(c@),
        None => None,
    }
}

fn find_seq(hay: &Vec<char>, needle: &Vec<char>) -> (r: bool)
    ensures
        r == contains_seq(hay@, needle@),
{
    if needle.len() > hay.len() {
        assert(!contains_seq(hay@, needle@));
        return false;
    }
    if needle.len() == 0 {
        assert(hay@.subrange(0, 0 + needle@.len() as int) =~= needle@);
        return true;
    }
    let last: usize = hay.len() - needle.len();
    let mut i: usize = 0;
    while i <= last
        invariant
            needle@.len() <= hay@.len(),
            needle@.len() > 0,
            hay@.len() == hay.len(),
            last == hay@.len() - needle@.len(),
            i <= last + 1,
            forall|k: int| 0 <= k < i ==> #[trigger] hay@.subrange(k, k + needle@.len()) != needle@,
        decreases last + 1 - i,
    {
        let mut j: usize = 0;
        let mut same = true;
        while j < needle.len()
            invariant
                needle@.len() <= hay@.len(),
                hay@.len() == hay.len(),
                i <= last,
                last == hay@.len() - needle@.len(),
                j <= needle@.len(),
                same <==> forall|m: int| 0 <= m < j ==> hay@[i + m] == needle@[m],
            decreases needle@.len() - j,
        {
            assert(i + j < hay@.len());
            if hay[i + j] != needle[j] {
                same = false;
            }
            j = j + 1;
        }
        if same {
            assert(hay@.subrange(i as int, i + needle@.len()) =~= needle@);
            return true;
        }
        assert(hay@.subrange(i as int, i + needle@.len()) != needle@) by {
            if hay@.subrange(i as int, i + needle@.len()) == needle@ {
                assert forall|m: int| 0 <= m < needle@.len() implies hay@[i + m] == needle@[m] by {
                    assert(hay@.subrange(i as int, i + needle@.len())[m] == hay@[i + m]);
                }
            }
        }
        assert(i < hay.len());
        i = i + 1;
    }
    false
}

/// Detect the platform from the OS name and the content of
/// `/etc/os-release` (`None` when it could not be read).
pub fn detect_platform(os: &str, os_release: Option<&str>) -> (p: Platform)
    ensures
        p@ == platform_of(os@, opt_str_view(os_release)),
{
    if str_eq(os, "linux") {
        match os_release {
            Some(content) => {
                let lower = chars_of(crate::names::ascii_lowercase(content).as_str());
                let debian = chars_of("debian");
                let ubuntu = chars_of("ubuntu");
                if find_seq(&lower, &debian) {
                    Platform::Debian
                } else if find_seq(&lower, &ubuntu) {
                    Platform::Ubuntu
                } else {
                    Platform::GenericLinux
                }
            },
            None => Platform::GenericLinux,
        }
    } else {
        Platform::Unknown(os.to_string())
    }
}


/// The process table after the cascade for every session id in `ids`, in
/// order: each one's live processes get their kill requested.
pub open spec fn kill_sessions_spec(t: Seq<EntryView>, env: Seq<char>, ids: Seq<Seq<char>>) -> Seq<EntryView>
    decreases ids.len(),
{
    if ids.len() == 0 {
        t
    } else {
        kill_session_spec(kill_sessions_spec(t, env, ids.drop_last()), env, ids.last())
    }
}

/// The viewer a caller addresses sessions as.
pub open spec fn viewer_of(caller: Option<Caller>) -> Viewer {
    Viewer::Caller(
        match caller {
            Some(c) => Some(c.fingerprint),
            None => None,
        },
    )
}

/// The optional caller a reference denotes.
pub open spec fn opt_caller(caller: Option<&Caller>) -> Option<Caller> {
    match caller {
        Some(c) => Some(*c),
        None => None,
    }
}

/// What a client learns of the environment.
#[derive(Debug, Clone)]
pub struct EnvironmentInfo {
    pub environment_id: String,
    pub machine_name: String,
    pub operating_system: String,
    pub daemon_version: String,
    pub advertised_capabilities: Vec<Capability>,
    pub platform: Platform,
    /// The caller's own fingerprint, so that it can ask for grants.
    pub caller_fingerprint: Option<String>,
}

/// The daemon's state: the environment it serves, its backends and its
/// authorization.
pub struct DaemonState {
    environment_id: String,
    machine_name: String,
    daemon_version: String,
    advertised_capabilities: Vec<Capability>,
    platform: Platform,
    fs: Option<FilesystemBackend>,
    proc: ProcessManager,
    proc_enabled: bool,
    sessions: SessionManager,
    sessions_enabled: bool,
    authz: Authz,
}

/// The error text of a filesystem request without a filesystem backend.
pub open spec fn fs_backend_missing() -> Seq<char> {
    "filesystem backend not configured"@
}

/// The error text of a process request without a process backend.
pub open spec fn proc_backend_missing() -> Seq<char> {
    "process backend not configured"@
}

/// The error text of a session request without a session backend.
pub open spec fn session_backend_missing() -> Seq<char> {
    "session backend not configured"@
}

/// The error text of a path that resolved outside every root.
pub open spec fn escape_blocked_message() -> Seq<char> {
    "filesystem escape blocked: "@ + "path escapes allowed boundary"@
}

/// The message refusing a request addressed to another environment.
pub open spec fn mismatch_message(requested: Seq<char>, ours: Seq<char>) -> Seq<char> {
    "requested environment '"@ + requested + "' does not match daemon environment '"@ + ours + "'"@
}

fn mismatch(requested: &str, ours: &str) -> (e: RpcError)
    ensures
        e matches RpcError::InvalidRequest(m) && m@ == mismatch_message(requested@, ours@),
{
    let mut m = String::from_str("requested environment '");
    push_str(&mut m, requested);
    push_str(&mut m, "' does not match daemon environment '");
    push_str(&mut m, ours);
    push_str(&mut m, "'");
    RpcError::InvalidRequest(m)
}

fn clone_caps(v: &Vec<Capability>) -> (out: Vec<Capability>)
    ensures
        out@ == v@,
{
    let mut out: Vec<Capability> = Vec::new();
    let mut i: usize = 0;
    while i < v.len()
        invariant
            i <= v@.len(),
            out@ == v@.subrange(0, i as int),
        decreases v@.len() - i,
    {
        out.push(v[i]);
        assert(v@.subrange(0, i + 1) =~= v@.subrange(0, i as int).push(v@[i as int]));
        i = i + 1;
    }
    assert(v@.subrange(0, v@.len() as int) =~= v@);
    out
}

fn copy_platform(p: &Platform) -> (q: Platform)
    ensures
        q == *p,
{
    match p {
        Platform::Debian => Platform::Debian,
        Platform::Ubuntu => Platform::Ubuntu,
        Platform::GenericLinux => Platform::GenericLinux,
        Platform::Unknown(s) => {
            let c = s.clone();
            assert(c == *s);
            Platform::Unknown(c)
        },
    }
}

/// Request the kill of every live process of each purged session.
fn kill_purged(proc: &mut ProcessManager, env: &str, purged: &Vec<String>)
    requires
        old(proc).wf(),
    ensures
        final(proc).wf(),
        final(proc).spec_environment() == old(proc).spec_environment(),
        final(proc).spec_config() == old(proc).spec_config(),
        final(proc).entries() == kill_sessions_spec(old(proc).entries(), env@, id_views(purged@)),
{
    let ghost t = proc.entries();
    let mut i: usize = 0;
    while i < purged.len()
        invariant
            i <= purged@.len(),
            proc.wf(),
            proc.spec_environment() == old(proc).spec_environment(),
            proc.spec_config() == old(proc).spec_config(),
            t == old(proc).entries(),
            proc.entries() == kill_sessions_spec(t, env@, id_views(purged@).subrange(0, i as int)),
        decreases purged@.len() - i,
    {
        let ghost sub = id_views(purged@).subrange(0, i + 1);
        assert(sub.drop_last() =~= id_views(purged@).subrange(0, i as int));
        assert(sub.last() == purged@[i as int]@);
        proc.kill_session_processes(env, purged[i].as_str());
        i = i + 1;
    }
    assert(id_views(purged@).subrange(0, purged@.len() as int) =~= id_views(purged@));
}

impl DaemonState {
    /// The managers are well formed; every constructor establishes it and
    /// every operation keeps it.
    pub closed spec fn inv(&self) -> bool {
        self.sessions.wf() && self.proc.wf()
    }

    /// The environment served.
    pub closed spec fn spec_env(&self) -> Seq<char> {
        self.environment_id@
    }

    /// The session table (meaningful when sessions are enabled).
    pub closed spec fn session_table(&self) -> Seq<SessionView> {
        self.sessions.table()
    }

    /// The environment the session manager serves.
    pub closed spec fn session_env(&self) -> Seq<char> {
        self.sessions.spec_environment()
    }

    /// The environment the process manager serves.
    pub closed spec fn proc_env(&self) -> Seq<char> {
        self.proc.spec_environment()
    }

    /// The session configuration.
    pub closed spec fn session_config(&self) -> SessionConfig {
        self.sessions.spec_config()
    }

    /// Whether a session manager is configured.
    pub closed spec fn has_sessions(&self) -> bool {
        self.sessions_enabled
    }

    /// The process table (meaningful when processes are enabled).
    pub closed spec fn process_table(&self) -> Seq<EntryView> {
        self.proc.entries()
    }

    /// The process manager's policy and limits.
    pub closed spec fn process_config(&self) -> ProcessConfig {
        self.proc.spec_config()
    }

    /// Whether a process manager is configured.
    pub closed spec fn has_processes(&self) -> bool {
        self.proc_enabled
    }

    /// The grants table's content (`None`: permissive).
    pub closed spec fn grants_table(&self) -> Option<Seq<(Seq<char>, Seq<crate::grants::GrantView>)>> {
        self.authz.table()
    }

    /// A daemon with no filesystem, process or session backend, in
    /// permissive mode.
    pub fn new(
        environment_id: String,
        machine_name: String,
        daemon_version: String,
        advertised_capabilities: Vec<Capability>,
        platform: Platform,
    ) -> (d: DaemonState)
        ensures
            d.inv(),
            d.spec_env() == environment_id@,
            d.spec_machine() == machine_name@,
            d.spec_version() == daemon_version@,
            d.spec_capabilities() == advertised_capabilities@,
            d.spec_platform() == platform,
            d.fs_roots() is None,
            !d.has_sessions(),
            !d.has_processes(),
            d.grants_table() is None,
    {
        let env_for_proc = environment_id.clone();
        let env_for_sessions = environment_id.clone();
        DaemonState {
            environment_id,
            machine_name,
            daemon_version,
            advertised_capabilities,
            platform,
            fs: None,
            proc: ProcessManager::new(env_for_proc, ProcessConfig::default()),
            proc_enabled: false,
            sessions: SessionManager::new(env_for_sessions, SessionConfig::default()),
            sessions_enabled: false,
            authz: Authz::permissive(),
        }
    }

    /// A daemon with a filesystem backend (see [`DaemonState::new`]).
    pub fn with_fs(
        environment_id: String,
        machine_name: String,
        daemon_version: String,
        advertised_capabilities: Vec<Capability>,
        platform: Platform,
        fs: FilesystemBackend,
    ) -> (d: DaemonState)
        ensures
            d.inv(),
            d.spec_env() == environment_id@,
            d.spec_machine() == machine_name@,
            d.spec_version() == daemon_version@,
            d.spec_capabilities() == advertised_capabilities@,
            d.spec_platform() == platform,
            d.fs_roots() == Some(fs.roots()),
            !d.has_sessions(),
            !d.has_processes(),
            d.grants_table() is None,
    {
        let mut d = DaemonState::new(environment_id, machine_name, daemon_version, advertised_capabilities, platform);
        d.fs = Some(fs);
        d
    }

    /// Attach a process manager.
    pub fn with_proc(self, proc: ProcessManager) -> (d: DaemonState)
        requires
            proc.wf(),
            self.inv(),
        ensures
            d.inv(),
            d.spec_env() == self.spec_env(),
            d.has_processes(),
            d.process_table() == proc.entries(),
            d.process_config() == proc.spec_config(),
            d.proc_env() == proc.spec_environment(),
            d.same_identity(&self),
            d.has_sessions() == self.has_sessions(),
            d.session_table() == self.session_table(),
            d.grants_table() == self.grants_table(),
    {
        let mut d = self;
        d.proc = proc;
        d.proc_enabled = true;
        d
    }

    /// Attach a session manager.
    pub fn with_sess(self, sessions: SessionManager) -> (d: DaemonState)
        requires
            sessions.wf(),
            self.inv(),
        ensures
            d.inv(),
            d.spec_env() == self.spec_env(),
            d.has_sessions(),
            d.session_table() == sessions.table(),
            d.session_config() == sessions.spec_config(),
            d.session_env() == sessions.spec_environment(),
            d.same_identity(&self),
            d.has_processes() == self.has_processes(),
            d.process_table() == self.process_table(),
            d.grants_table() == self.grants_table(),
    {
        let mut d = self;
        d.sessions = sessions;
        d.sessions_enabled = true;
        d
    }

    /// Switch to strict authorization over a grants table.
    pub fn with_grants(self, grants: crate::grants::GrantsTable) -> (d: DaemonState)
        requires
            self.inv(),
        ensures
            d.inv(),
            d.spec_env() == self.spec_env(),
            d.grants_table() == Some(grants@),
            d.same_identity(&self),
            d.has_sessions() == self.has_sessions(),
            d.session_table() == self.session_table(),
            d.has_processes() == self.has_processes(),
            d.process_table() == self.process_table(),
    {
        let mut d = self;
        d.authz = Authz::strict(grants);
        d
    }

    /// The environment served.
    pub fn environment_id(&self) -> (e: &str)
        ensures
            e@ == self.spec_env(),
    {
        self.environment_id.as_str()
    }

    /// The daemon version.
    pub fn daemon_version(&self) -> (v: &str)
        ensures
            v@ == self.spec_version(),
    {
        self.daemon_version.as_str()
    }

    /// The advertised operations.
    pub fn advertised_capabilities(&self) -> (c: &Vec<Capability>)
        ensures
            c@ == self.spec_capabilities(),
    {
        &self.advertised_capabilities
    }

    /// The filesystem backend, if configured.
    pub fn fs(&self) -> (f: &Option<FilesystemBackend>)
        ensures
            match *f {
                Some(b) => self.fs_roots() == Some(b.roots()),
                None => self.fs_roots() is None,
            },
    {
        &self.fs
    }

    /// The process manager, if configured.
    pub fn proc(&self) -> (p: Option<&ProcessManager>)
        ensures
            p is Some <==> self.has_processes(),
            p matches Some(m) ==> m.entries() == self.process_table() && m.spec_config() == self.process_config()
                && (self.inv() ==> m.wf()),
    {
        if self.proc_enabled {
            Some(&self.proc)
        } else {
            None
        }
    }

    /// The session manager, if configured.
    pub fn sessions(&self) -> (s: Option<&SessionManager>)
        ensures
            s is Some <==> self.has_sessions(),
            s matches Some(m) ==> m.table() == self.session_table(),
    {
        if self.sessions_enabled {
            Some(&self.sessions)
        } else {
            None
        }
    }

    /// The authorization state.
    pub fn authz(&self) -> (a: &Authz)
        ensures
            a.table() == self.grants_table(),
    {
        &self.authz
    }

    /// The environment binding every request starts with.
    pub fn check_environment(&self, requested: &str) -> (r: Result<(), RpcError>)
        ensures
            r is Ok <==> requested@ == self.spec_env(),
            r is Err ==> (r matches Err(RpcError::InvalidRequest(m)) && m@ == mismatch_message(
                requested@,
                self.spec_env(),
            )),
    {
        if str_eq(requested, self.environment_id.as_str()) {
            Ok(())
        } else {
            Err(mismatch(requested, self.environment_id.as_str()))
        }
    }

    /// The environment info: open to every authenticated caller, unknown
    /// principals included (this is how a client learns its fingerprint).
    pub fn environment_info(&self, caller: Option<&Caller>, requested: &str, operating_system: &str) -> (r: Result<
        EnvironmentInfo,
        RpcError,
    >)
        ensures
            requested@ != self.spec_env() ==> (r matches Err(RpcError::InvalidRequest(em)) && em@ == mismatch_message(requested@, self.spec_env())),
            requested@ == self.spec_env() ==> (r matches Ok(info) && info.environment_id@ == self.spec_env()
                && info.machine_name@ == self.spec_machine() && info.daemon_version@ == self.spec_version()
                && info.advertised_capabilities@ == self.spec_capabilities() && info.platform == self.spec_platform()
                && info.operating_system@ == operating_system@ && match caller {
                Some(c) => info.caller_fingerprint matches Some(f) && f@ == c.fingerprint@,
                None => info.caller_fingerprint is None,
            }),
    {
        match self.check_environment(requested) {
            Ok(()) => {},
            Err(e) => {
                return Err(e);
            },
        }
        Ok(EnvironmentInfo {
            environment_id: self.environment_id.clone(),
            machine_name: self.machine_name.clone(),
            operating_system: operating_system.to_string(),
            daemon_version: self.daemon_version.clone(),
            advertised_capabilities: clone_caps(&self.advertised_capabilities),
            platform: copy_platform(&self.platform),
            caller_fingerprint: match caller {
                Some(c) => Some(c.fingerprint.clone()),
                None => None,
            },
        })
    }

    /// Touch the caller's session (the resume every session-scoped request
    /// performs), then kill the live processes of every session the touch
    /// found expired, whatever the answer. Other owners' sessions miss as
    /// unknown ones do.
    pub fn require_live_session(&mut self, caller: Option<&Caller>, session_id: &str, now: u64) -> (r: Result<
        SessionInfo,
        RpcError,
    >)
        requires
            old(self).inv(),
        ensures
            final(self).inv(),
            final(self).spec_env() == old(self).spec_env(),
            final(self).proc_env() == old(self).proc_env(),
            final(self).session_env() == old(self).session_env(),
            final(self).has_sessions() == old(self).has_sessions(),
            final(self).has_processes() == old(self).has_processes(),
            final(self).grants_table() == old(self).grants_table(),
            final(self).session_config() == old(self).session_config(),
            final(self).process_config() == old(self).process_config(),
            !old(self).has_sessions() ==> (r matches Err(RpcError::InternalError(im)) && im@ == session_backend_missing() && final(self).session_table()
                == old(self).session_table() && final(self).process_table() == old(self).process_table()),
            old(self).has_sessions() ==> {
                let (o, t2, purged) = touch_spec(
                    old(self).session_table(),
                    session_id@,
                    viewer_of(opt_caller(caller)),
                    old(self).session_config(),
                    now as nat,
                );
                &&& final(self).session_table() == t2
                &&& final(self).process_table() == if old(self).has_processes() {
                    kill_sessions_spec(old(self).process_table(), old(self).spec_env(), purged)
                } else {
                    old(self).process_table()
                }
                &&& match o {
                    Addressed::Found(s) => r matches Ok(info) && info@ == s,
                    Addressed::NotFound => (r matches Err(RpcError::SessionNotFound(m)) && m@ == crate::session::session_not_found_message(session_id@)),
                    Addressed::Expired => (r matches Err(RpcError::SessionExpired(m)) && m@ == crate::session::session_expired_message(session_id@)),
                }
            },
    {
        if !self.sessions_enabled {
            return Err(RpcError::InternalError(String::from_str("session backend not configured")));
        }
        let viewer = Viewer::Caller(
            match caller {
                Some(c) => Some(c.fingerprint.clone()),
                None => None,
            },
        );
        assert(viewer == viewer_of(opt_caller(caller)));
        let (result, purged) = self.sessions.touch_owned(session_id, &viewer, now);
        if self.proc_enabled {
            kill_purged(&mut self.proc, self.environment_id.as_str(), &purged);
        }
        match result {
            Ok(info) => Ok(info),
            Err(e) => Err(session_error_to_rpc(e)),
        }
    }

    /// Create a session owned by the caller (ownerless without identity),
    /// after the environment and unknown-principal checks; then kill the
    /// live processes of the sessions the creation purged.
    pub fn create_session(
        &mut self,
        caller: Option<&Caller>,
        req: &CreateSessionRequest,
        workdir: &WorkdirStatus,
        now: u64,
    ) -> (r: Result<SessionInfo, RpcError>)
        requires
            old(self).inv(),
        ensures
            final(self).inv(),
            final(self).spec_env() == old(self).spec_env(),
            final(self).has_sessions() == old(self).has_sessions(),
            final(self).has_processes() == old(self).has_processes(),
            final(self).grants_table() == old(self).grants_table(),
            final(self).session_config() == old(self).session_config(),
            final(self).process_config() == old(self).process_config(),
            req.environment_id@ != old(self).spec_env() ==> ((r matches Err(RpcError::InvalidRequest(em)) && em@ == mismatch_message(req.environment_id@, old(self).spec_env()))
                && final(self).session_table() == old(self).session_table()
                && final(self).process_table() == old(self).process_table()),
            req.environment_id@ == old(self).spec_env() && !(old(self).grants_table() is None || known_principal(
                old(self).grants_table(),
                caller_fp(opt_caller(caller)),
            )) ==> (r matches Err(RpcError::Forbidden(fm)) && fm@ == crate::authz::unknown_principal_message() && final(self).session_table() == old(self).session_table()
                && final(self).process_table() == old(self).process_table()),
            req.environment_id@ == old(self).spec_env() && (old(self).grants_table() is None || known_principal(
                old(self).grants_table(),
                caller_fp(opt_caller(caller)),
            )) && !old(self).has_sessions() ==> (r matches Err(RpcError::InternalError(im)) && im@ == session_backend_missing()
                && final(self).session_table() == old(self).session_table() && final(self).process_table() == old(
                self,
            ).process_table()),
            req.environment_id@ == old(self).spec_env() && (old(self).grants_table() is None || known_principal(
                old(self).grants_table(),
                caller_fp(opt_caller(caller)),
            )) && old(self).has_sessions() ==> {
                let c = old(self).session_config();
                let p = crate::session::purge(old(self).session_table(), c, now as nat);
                if !crate::envvars::valid_env(crate::envvars::pair_views(req.env_vars@)) || req.environment_id@
                    != old(self).session_env() || !(workdir is Directory) {
                    &&& r matches Err(RpcError::InvalidRequest(_))
                    &&& final(self).session_table() == old(self).session_table()
                    &&& final(self).process_table() == old(self).process_table()
                } else if p.len() >= c.max_sessions {
                    &&& r matches Err(RpcError::CapacityExceeded(_))
                    &&& final(self).session_table() == p
                    &&& final(self).process_table() == old(self).process_table()
                } else {
                    ||| r matches Err(RpcError::InternalError(_)) && final(self).session_table() == p
                        && final(self).process_table() == old(self).process_table()
                    ||| r matches Ok(info) && final(self).session_table() == p.push(info@)
                        && final(self).process_table() == if old(self).has_processes() {
                        kill_sessions_spec(
                            old(self).process_table(),
                            old(self).spec_env(),
                            crate::session::expired_ids(old(self).session_table(), c, now as nat),
                        )
                    } else {
                        old(self).process_table()
                    }
                }
            },
            r matches Ok(info) ==> {
                &&& old(self).has_sessions()
                &&& crate::ids::is_generated_id(info@.id, crate::session::session_prefix())
                &&& crate::session::find_session(
                    crate::session::purge(old(self).session_table(), old(self).session_config(), now as nat),
                    info@.id,
                ) < 0
                &&& info@.owner == caller_fp(opt_caller(caller))
                &&& final(self).session_table() == crate::session::purge(
                    old(self).session_table(),
                    old(self).session_config(),
                    now as nat,
                ).push(info@)
                &&& info@ == crate::session::created_view(*req, info@.id, caller_fp(opt_caller(caller)), now as nat)
            },
    {
        match self.check_environment(req.environment_id.as_str()) {
            Ok(()) => {},
            Err(e) => {
                return Err(e);
            },
        }
        match self.authz.deny_unknown_principal(caller) {
            Ok(()) => {},
            Err(e) => {
                return Err(e);
            },
        }
        if !self.sessions_enabled {
            return Err(RpcError::InternalError(String::from_str("session backend not configured")));
        }
        let owner = match caller {
            Some(c) => Some(c.fingerprint.clone()),
            None => None,
        };
        let created = self.sessions.create_owned(req, workdir, owner, now);
        match created {
            Ok((info, purged)) => {
                if self.proc_enabled {
                    kill_purged(&mut self.proc, self.environment_id.as_str(), &purged);
                }
                Ok(info)
            },
            Err(e) => Err(session_error_to_rpc(e)),
        }
    }

    /// Resume a session: the environment and unknown-principal checks, the
    /// live-session touch (with its kill-on-expiry), then a session of
    /// another environment misses as an unknown one.
    pub fn get_session(&mut self, caller: Option<&Caller>, environment_id: &str, session_id: &str, now: u64) -> (r:
        Result<SessionInfo, RpcError>)
        requires
            old(self).inv(),
        ensures
            final(self).inv(),
            final(self).spec_env() == old(self).spec_env(),
            final(self).has_sessions() == old(self).has_sessions(),
            final(self).has_processes() == old(self).has_processes(),
            final(self).grants_table() == old(self).grants_table(),
            final(self).session_config() == old(self).session_config(),
            final(self).process_config() == old(self).process_config(),
            environment_id@ != old(self).spec_env() ==> ((r matches Err(RpcError::InvalidRequest(em)) && em@ == mismatch_message(environment_id@, old(self).spec_env()))
                && final(self).session_table() == old(self).session_table()
                && final(self).process_table() == old(self).process_table()),
            environment_id@ == old(self).spec_env() && !(old(self).grants_table() is None || known_principal(
                old(self).grants_table(),
                caller_fp(opt_caller(caller)),
            )) ==> (r matches Err(RpcError::Forbidden(fm)) && fm@ == crate::authz::unknown_principal_message() && final(self).session_table() == old(self).session_table()
                && final(self).process_table() == old(self).process_table()),
            r matches Ok(info) ==> old(self).has_sessions() && info@.env == environment_id@ && touch_spec(
                old(self).session_table(),
                session_id@,
                viewer_of(opt_caller(caller)),
                old(self).session_config(),
                now as nat,
            ).0 == Addressed::Found(info@),
            environment_id@ == old(self).spec_env() && (old(self).grants_table() is None || known_principal(
                old(self).grants_table(),
                caller_fp(opt_caller(caller)),
            )) && old(self).has_sessions() ==> match touch_spec(
                old(self).session_table(),
                session_id@,
                viewer_of(opt_caller(caller)),
                old(self).session_config(),
                now as nat,
            ).0 {
                Addressed::Found(s) => if s.env == environment_id@ {
                    r matches Ok(info) && info@ == s
                } else {
                    r matches Err(RpcError::NotFound(_))
                },
                Addressed::NotFound => (r matches Err(RpcError::SessionNotFound(m)) && m@ == crate::session::session_not_found_message(session_id@)),
                Addressed::Expired => (r matches Err(RpcError::SessionExpired(m)) && m@ == crate::session::session_expired_message(session_id@)),
            },
            environment_id@ == old(self).spec_env() && (old(self).grants_table() is None || known_principal(
                old(self).grants_table(),
                caller_fp(opt_caller(caller)),
            )) && old(self).has_sessions() ==> {
                let (o, t2, purged) = touch_spec(
                    old(self).session_table(),
                    session_id@,
                    viewer_of(opt_caller(caller)),
                    old(self).session_config(),
                    now as nat,
                );
                &&& final(self).session_table() == t2
                &&& final(self).process_table() == if old(self).has_processes() {
                    kill_sessions_spec(old(self).process_table(), old(self).spec_env(), purged)
                } else {
                    old(self).process_table()
                }
            },
    {
        match self.check_environment(environment_id) {
            Ok(()) => {},
            Err(e) => {
                return Err(e);
            },
        }
        match self.authz.deny_unknown_principal(caller) {
            Ok(()) => {},
            Err(e) => {
                return Err(e);
            },
        }
        let info = match self.require_live_session(caller, session_id, now) {
            Ok(info) => info,
            Err(e) => {
                return Err(e);
            },
        };
        if !str_eq(info.environment_id.as_str(), environment_id) {
            let mut m = String::from_str("unknown session '");
            push_str(&mut m, session_id);
            push_str(&mut m, "'");
            return Err(RpcError::NotFound(m));
        }
        Ok(info)
    }

    /// List the caller's live sessions of the environment (its own and the
    /// ownerless ones, never another principal's), then kill the live
    /// processes of the sessions the listing purged.
    pub fn list_sessions(&mut self, caller: Option<&Caller>, environment_id: &str, now: u64) -> (r: Result<
        Vec<SessionInfo>,
        RpcError,
    >)
        requires
            old(self).inv(),
        ensures
            final(self).inv(),
            final(self).spec_env() == old(self).spec_env(),
            final(self).has_sessions() == old(self).has_sessions(),
            final(self).has_processes() == old(self).has_processes(),
            final(self).grants_table() == old(self).grants_table(),
            final(self).session_config() == old(self).session_config(),
            final(self).process_config() == old(self).process_config(),
            environment_id@ != old(self).spec_env() ==> (r matches Err(RpcError::InvalidRequest(em)) && em@ == mismatch_message(environment_id@, old(self).spec_env())
                && final(self).session_table() == old(self).session_table() && final(self).process_table() == old(
                self,
            ).process_table()),
            environment_id@ == old(self).spec_env() && !(old(self).grants_table() is None || known_principal(
                old(self).grants_table(),
                caller_fp(opt_caller(caller)),
            )) ==> (r matches Err(RpcError::Forbidden(fm)) && fm@ == crate::authz::unknown_principal_message()
                && final(self).session_table() == old(self).session_table() && final(self).process_table() == old(
                self,
            ).process_table()),
            environment_id@ == old(self).spec_env() && (old(self).grants_table() is None || known_principal(
                old(self).grants_table(),
                caller_fp(opt_caller(caller)),
            )) ==> if old(self).has_sessions() {
                let p = crate::session::purge(old(self).session_table(), old(self).session_config(), now as nat);
                &&& final(self).session_table() == p
                &&& r matches Ok(v) && crate::session::session_views(v@) == crate::session::listed(
                    p,
                    environment_id@,
                    viewer_of(opt_caller(caller)),
                )
                &&& final(self).process_table() == if old(self).has_processes() {
                    kill_sessions_spec(
                        old(self).process_table(),
                        old(self).spec_env(),
                        crate::session::expired_ids(old(self).session_table(), old(self).session_config(), now as nat),
                    )
                } else {
                    old(self).process_table()
                }
            } else {
                r matches Err(RpcError::InternalError(im)) && im@ == session_backend_missing()
                    && final(self).session_table() == old(self).session_table() && final(self).process_table() == old(
                    self,
                ).process_table()
            },
    {
        match self.check_environment(environment_id) {
            Ok(()) => {},
            Err(e) => {
                return Err(e);
            },
        }
        match self.authz.deny_unknown_principal(caller) {
            Ok(()) => {},
            Err(e) => {
                return Err(e);
            },
        }
        if !self.sessions_enabled {
            return Err(RpcError::InternalError(String::from_str("session backend not configured")));
        }
        let viewer = Viewer::Caller(
            match caller {
                Some(c) => Some(c.fingerprint.clone()),
                None => None,
            },
        );
        assert(viewer == viewer_of(opt_caller(caller)));
        let (live, purged) = self.sessions.list_owned(environment_id, &viewer, now);
        if self.proc_enabled {
            kill_purged(&mut self.proc, self.environment_id.as_str(), &purged);
        }
        Ok(live)
    }

    /// Terminate a session: the environment and unknown-principal checks,
    /// the live-session touch (an expired session has its processes killed
    /// and yields `SessionExpired`); then its live processes are killed and
    /// only then its record removed. Returns how many kills were requested.
    pub fn terminate_session(&mut self, caller: Option<&Caller>, environment_id: &str, session_id: &str, now: u64) -> (r:
        Result<usize, RpcError>)
        requires
            old(self).inv(),
        ensures
            final(self).inv(),
            final(self).spec_env() == old(self).spec_env(),
            final(self).has_sessions() == old(self).has_sessions(),
            final(self).has_processes() == old(self).has_processes(),
            final(self).grants_table() == old(self).grants_table(),
            final(self).session_config() == old(self).session_config(),
            final(self).process_config() == old(self).process_config(),
            environment_id@ != old(self).spec_env() ==> ((r matches Err(RpcError::InvalidRequest(em)) && em@ == mismatch_message(environment_id@, old(self).spec_env()))
                && final(self).session_table() == old(self).session_table()
                && final(self).process_table() == old(self).process_table()),
            environment_id@ == old(self).spec_env() && !(old(self).grants_table() is None || known_principal(
                old(self).grants_table(),
                caller_fp(opt_caller(caller)),
            )) ==> (r matches Err(RpcError::Forbidden(fm)) && fm@ == crate::authz::unknown_principal_message() && final(self).session_table() == old(self).session_table()
                && final(self).process_table() == old(self).process_table()),
            environment_id@ == old(self).spec_env() && (old(self).grants_table() is None || known_principal(
                old(self).grants_table(),
                caller_fp(opt_caller(caller)),
            )) && !old(self).has_sessions() ==> (r matches Err(RpcError::InternalError(im)) && im@ == session_backend_missing()
                && final(self).session_table() == old(self).session_table() && final(self).process_table() == old(
                self,
            ).process_table()),
            environment_id@ == old(self).spec_env() && (old(self).grants_table() is None || known_principal(
                old(self).grants_table(),
                caller_fp(opt_caller(caller)),
            )) && old(self).has_sessions() ==> {
                let (o, t2, purged) = touch_spec(
                    old(self).session_table(),
                    session_id@,
                    viewer_of(opt_caller(caller)),
                    old(self).session_config(),
                    now as nat,
                );
                let killed = if old(self).has_processes() {
                    kill_sessions_spec(old(self).process_table(), old(self).spec_env(), purged)
                } else {
                    old(self).process_table()
                };
                match o {
                    Addressed::NotFound => r matches Err(RpcError::SessionNotFound(m)) && m@
                        == crate::session::session_not_found_message(session_id@) && final(self).session_table() == t2
                        && final(self).process_table() == killed,
                    Addressed::Expired => r matches Err(RpcError::SessionExpired(m)) && m@
                        == crate::session::session_expired_message(session_id@)
                        + " (session processes kill attempted despite expiry)"@ && final(self).session_table() == t2
                        && final(self).process_table() == killed,
                    Addressed::Found(found) => if found.env != environment_id@ {
                        r matches Err(RpcError::NotFound(_)) && final(self).session_table() == t2
                            && final(self).process_table() == killed
                    } else {
                        &&& final(self).session_table() == t2.remove(find_session_id(t2, session_id@))
                        &&& r matches Ok(n) && n == if old(self).has_processes() {
                            crate::proc_table::live_in_session(
                                old(self).process_table(),
                                old(self).spec_env(),
                                session_id@,
                            )
                        } else {
                            0
                        }
                        &&& old(self).has_processes() ==> final(self).process_table() == kill_session_spec(
                            old(self).process_table(),
                            old(self).spec_env(),
                            session_id@,
                        )
                    },
                }
            },
            r is Ok ==> old(self).has_sessions() && find_session_id(final(self).session_table(), session_id@) < 0,
            r is Ok && old(self).has_processes() ==> forall|k: int|
                0 <= k < final(self).process_table().len() && (#[trigger] final(self).process_table()[k]).env
                    == old(self).spec_env() && final(self).process_table()[k].session == session_id@
                    && !crate::proc_table::is_terminal(final(self).process_table()[k])
                    ==> final(self).process_table()[k].kill_requested,
    {
        match self.check_environment(environment_id) {
            Ok(()) => {},
            Err(e) => {
                return Err(e);
            },
        }
        match self.authz.deny_unknown_principal(caller) {
            Ok(()) => {},
            Err(e) => {
                return Err(e);
            },
        }
        let live = match self.require_live_session(caller, session_id, now) {
            Ok(info) => info,
            Err(RpcError::SessionExpired(m)) => {
                let mut msg = String::new();
                push_str(&mut msg, m.as_str());
                push_str(&mut msg, " (session processes kill attempted despite expiry)");
                return Err(RpcError::SessionExpired(msg));
            },
            Err(e) => {
                return Err(e);
            },
        };
        if !str_eq(live.environment_id.as_str(), environment_id) {
            let mut m = String::from_str("unknown session '");
            push_str(&mut m, session_id);
            push_str(&mut m, "'");
            return Err(RpcError::NotFound(m));
        }
        let terminated = if self.proc_enabled {
            self.proc.kill_session_processes(self.environment_id.as_str(), session_id)
        } else {
            0
        };
        let ghost killed = self.proc.entries();
        let viewer = Viewer::Caller(
            match caller {
                Some(c) => Some(c.fingerprint.clone()),
                None => None,
            },
        );
        let ghost t_before = self.sessions.table();
        proof {
            crate::session::lemma_touch_then_terminate(
                old(self).sessions.table(),
                session_id@,
                viewer,
                self.sessions.spec_config(),
                now as nat,
            );
        }
        let (result, purged) = self.sessions.terminate_owned(session_id, &viewer, now);
        if self.proc_enabled {
            kill_purged(&mut self.proc, self.environment_id.as_str(), &purged);
        }
        proof {
            if self.proc_enabled {
                lemma_kill_session_marks(old(self).proc.entries(), self.environment_id@, session_id@);
                lemma_kill_sessions_keeps_kills(killed, self.environment_id@, id_views(purged@), session_id@);
            }
        }
        match result {
            Ok(()) => {
                proof {
                    lemma_terminated_gone(t_before, session_id@, viewer, self.sessions.spec_config(), now as nat);
                }
                Ok(terminated)
            },
            Err(SessionError::Expired(m)) => {
                let mut msg = String::new();
                push_str(&mut msg, m.as_str());
                push_str(&mut msg, " (session processes kill attempted despite expiry)");
                Err(RpcError::SessionExpired(msg))
            },
            Err(e) => Err(session_error_to_rpc(e)),
        }
    }
}

/// The position of a session id in a table, or -1.
pub open spec fn find_session_id(t: Seq<SessionView>, id: Seq<char>) -> int {
    crate::session::find_session(t, id)
}

proof fn lemma_terminated_gone(t: Seq<SessionView>, id: Seq<char>, v: Viewer, c: SessionConfig, now: nat)
    requires
        crate::session::ids_distinct(t),
        terminate_spec(t, id, v, c, now).0 is Found,
    ensures
        crate::session::find_session(terminate_spec(t, id, v, c, now).1, id) < 0,
{
    crate::session::lemma_removed_id_gone(t, id);
}

proof fn lemma_kill_session_marks(t: Seq<EntryView>, env: Seq<char>, session: Seq<char>)
    ensures
        forall|k: int|
            0 <= k < kill_session_spec(t, env, session).len() && (#[trigger] kill_session_spec(t, env, session)[k]).env
                == env && kill_session_spec(t, env, session)[k].session == session && !crate::proc_table::is_terminal(
                kill_session_spec(t, env, session)[k],
            ) ==> kill_session_spec(t, env, session)[k].kill_requested,
{
}

proof fn lemma_kill_sessions_keeps_kills(t: Seq<EntryView>, env: Seq<char>, ids: Seq<Seq<char>>, session: Seq<char>)
    requires
        forall|k: int|
            0 <= k < t.len() && (#[trigger] t[k]).env == env && t[k].session == session
                && !crate::proc_table::is_terminal(t[k]) ==> t[k].kill_requested,
    ensures
        forall|k: int|
            0 <= k < kill_sessions_spec(t, env, ids).len() && (#[trigger] kill_sessions_spec(t, env, ids)[k]).env
                == env && kill_sessions_spec(t, env, ids)[k].session == session && !crate::proc_table::is_terminal(
                kill_sessions_spec(t, env, ids)[k],
            ) ==> kill_sessions_spec(t, env, ids)[k].kill_requested,
        kill_sessions_spec(t, env, ids).len() == t.len(),
    decreases ids.len(),
{
    if ids.len() > 0 {
        lemma_kill_sessions_keeps_kills(t, env, ids.drop_last(), session);
    }
}


/// No expiry path orphans live children: after the cascade for a list of
/// purged session ids, every live process of each of those sessions has its
/// kill requested; no entry is added or dropped, and no other entry changes
/// but for its kill flag.
pub proof fn law_purged_sessions_processes_are_killed(t: Seq<EntryView>, env: Seq<char>, ids: Seq<Seq<char>>)
    ensures
        kill_sessions_spec(t, env, ids).len() == t.len(),
        forall|k: int, j: int|
            0 <= k < t.len() && 0 <= j < ids.len() && (#[trigger] kill_sessions_spec(t, env, ids)[k]).env == env
                && kill_sessions_spec(t, env, ids)[k].session == #[trigger] ids[j] && !crate::proc_table::is_terminal(
                kill_sessions_spec(t, env, ids)[k],
            ) ==> kill_sessions_spec(t, env, ids)[k].kill_requested,
        forall|k: int|
            0 <= k < t.len() ==> (EntryView {
                kill_requested: t[k].kill_requested,
                ..#[trigger] kill_sessions_spec(t, env, ids)[k]
            }) == t[k],
    decreases ids.len(),
{
    if ids.len() > 0 {
        let d = ids.drop_last();
        law_purged_sessions_processes_are_killed(t, env, d);
        let u = kill_sessions_spec(t, env, d);
        let w = kill_sessions_spec(t, env, ids);
        assert(w == kill_session_spec(u, env, ids.last()));
        assert forall|k: int, j: int|
            0 <= k < t.len() && 0 <= j < ids.len() && (#[trigger] w[k]).env == env && w[k].session == #[trigger] ids[j]
                && !crate::proc_table::is_terminal(w[k]) implies w[k].kill_requested by {
            if j < d.len() {
                assert(ids[j] == d[j]);
                assert(u[k].env == env && u[k].session == d[j]);
            }
        }
        assert forall|k: int| 0 <= k < t.len() implies (EntryView {
            kill_requested: t[k].kill_requested,
            ..#[trigger] w[k]
        }) == t[k] by {
            assert((EntryView { kill_requested: t[k].kill_requested, ..u[k] }) == t[k]);
        }
    }
}


/// A content hash as clients may pass it: 64 hex digits, either case.
pub open spec fn hash_shape_ok(h: Seq<char>) -> bool {
    h.len() == 64 && forall|i: int| 0 <= i < 64 ==> is_hex_digit(#[trigger] h[i])
}

/// Validate a path-addressed request: the path must not be empty.
pub fn validate_path_request(path: &str) -> (r: Result<(), RpcError>)
    ensures
        r is Ok <==> path@.len() > 0,
        r is Err ==> r matches Err(RpcError::InvalidRequest(_)),
{
    if path.unicode_len() == 0 {
        return Err(RpcError::InvalidRequest(String::from_str("invalid request: path must not be empty")));
    }
    Ok(())
}

/// Validate a write request: a path, and an expected hash (if any) of the
/// right shape.
pub fn validate_write_request(path: &str, expected_hash: Option<&str>) -> (r: Result<(), RpcError>)
    ensures
        r is Ok <==> path@.len() > 0 && match expected_hash {
            Some(h) => hash_shape_ok(h@),
            None => true,
        },
        r is Err ==> r matches Err(RpcError::InvalidRequest(_)),
{
    match validate_path_request(path) {
        Ok(()) => {},
        Err(e) => {
            return Err(e);
        },
    }
    match expected_hash {
        None => Ok(()),
        Some(h) => {
            let cs = chars_of(h);
            if cs.len() != 64 {
                return Err(RpcError::InvalidRequest(String::from_str(
                    "invalid request: expected_hash must be 64 hex characters",
                )));
            }
            let mut i: usize = 0;
            while i < cs.len()
                invariant
                    cs@ == h@,
                    path@.len() > 0,
                    expected_hash == Some(h),
                    cs@.len() == 64,
                    i <= cs@.len(),
                    forall|j: int| 0 <= j < i ==> is_hex_digit(#[trigger] cs@[j]),
                decreases cs@.len() - i,
            {
                if !hex_digit_check(cs[i]) {
                    assert(!is_hex_digit(h@[i as int]));
                    assert(0 <= i < 64);
                    assert(!hash_shape_ok(h@));
                    return Err(RpcError::InvalidRequest(String::from_str(
                        "invalid request: expected_hash must be 64 hex characters",
                    )));
                }
                i = i + 1;
            }
            Ok(())
        },
    }
}

/// Validate a rename: both ends named, and different.
pub fn validate_rename_request(src: &str, dst: &str) -> (r: Result<(), RpcError>)
    ensures
        r is Ok <==> src@.len() > 0 && dst@.len() > 0 && src@ != dst@,
        r is Err ==> r matches Err(RpcError::InvalidRequest(_)),
{
    match validate_path_request(src) {
        Ok(()) => {},
        Err(e) => {
            return Err(e);
        },
    }
    match validate_path_request(dst) {
        Ok(()) => {},
        Err(e) => {
            return Err(e);
        },
    }
    if str_eq(src, dst) {
        return Err(RpcError::InvalidRequest(String::from_str("invalid request: src and dst must differ")));
    }
    Ok(())
}

/// What the filesystem reported for a working directory, turned into its
/// status: a resolution that failed (escaping the roots or not), or the
/// metadata of the resolved path.
#[derive(Debug, Clone)]
pub enum DirProbe {
    Directory,
    NotADirectory,
    Missing,
    PermissionDenied,
    Other(String),
}

/// The working-directory status from its resolution and its metadata.
pub fn workdir_status(resolved: &Result<String, crate::fs::FsError>, probe: &DirProbe) -> (w: WorkdirStatus)
    ensures
        match resolved {
            Err(crate::fs::FsError::FilesystemEscape(_)) => w is Escapes,
            Err(_) => w is Unresolvable,
            Ok(_) => match probe {
                DirProbe::Directory => w is Directory,
                DirProbe::NotADirectory => w is NotADirectory,
                DirProbe::Missing => w is Missing,
                DirProbe::PermissionDenied => w is PermissionDenied,
                DirProbe::Other(e) => w == WorkdirStatus::OtherError(*e),
            },
        },
{
    match resolved {
        Err(crate::fs::FsError::FilesystemEscape(_)) => WorkdirStatus::Escapes,
        Err(_) => WorkdirStatus::Unresolvable,
        Ok(_) => match probe {
            DirProbe::Directory => WorkdirStatus::Directory,
            DirProbe::NotADirectory => WorkdirStatus::NotADirectory,
            DirProbe::Missing => WorkdirStatus::Missing,
            DirProbe::PermissionDenied => WorkdirStatus::PermissionDenied,
            DirProbe::Other(e) => WorkdirStatus::OtherError(e.clone()),
        },
    }
}

/// The caller passes the unknown-principal gate.
pub open spec fn gate_open(table: Option<Seq<(Seq<char>, Seq<crate::grants::GrantView>)>>, caller: Option<Caller>) -> bool {
    table is None || known_principal(table, caller_fp(caller))
}

/// The log lines a request returns: none, or the one line of the grant
/// check it reached.
pub open spec fn log_is(logs: Seq<String>, line: Option<Seq<char>>) -> bool {
    match line {
        None => logs.len() == 0,
        Some(l) => logs.len() == 1 && logs[0]@ == l,
    }
}

/// How a path resolves under the roots: following a final symlink, or not.
pub open spec fn resolution(
    roots: Seq<Seq<char>>,
    path: Seq<char>,
    follow_final: bool,
    probes: Seq<ResolveProbe>,
    parents: Seq<Canonical>,
) -> Resolved {
    if follow_final {
        resolve_spec(roots, path, probe_views(probes))
    } else {
        resolve_no_follow_spec(roots, path, canonical_views(parents))
    }
}

/// Why the session-scoped prefix of a process request refused it.
pub enum GateRefusal {
    /// The request names another environment.
    WrongEnvironment,
    /// No process or session backend is configured.
    NoBackend,
    /// The session is unknown, or another owner's.
    SessionNotFound,
    /// The session had expired (and was removed).
    SessionExpired,
    /// The session belongs to another environment.
    OtherEnvironment,
    /// The caller is not a known principal.
    UnknownPrincipal,
}

/// The error that answers a refusal.
pub open spec fn refusal_error(k: GateRefusal, e: RpcError) -> bool {
    match k {
        GateRefusal::WrongEnvironment => e is InvalidRequest,
        GateRefusal::NoBackend => e is InternalError,
        GateRefusal::SessionNotFound => e is SessionNotFound,
        GateRefusal::SessionExpired => e is SessionExpired,
        GateRefusal::OtherEnvironment => e is NotFound,
        GateRefusal::UnknownPrincipal => e matches RpcError::Forbidden(m) && m@ == crate::authz::unknown_principal_message(),
    }
}

/// The session-scoped prefix of a process request, in order: the
/// environment, the backends, the session touch, the session's environment,
/// the unknown-principal gate. Passing yields the (bumped) session.
pub open spec fn gate_result(d: DaemonState, caller: Option<Caller>, env: Seq<char>, sid: Seq<char>, now: nat) -> Result<
    SessionView,
    GateRefusal,
> {
    if env != d.spec_env() {
        Err(GateRefusal::WrongEnvironment)
    } else if !d.has_processes() || !d.has_sessions() {
        Err(GateRefusal::NoBackend)
    } else {
        match touch_spec(d.session_table(), sid, viewer_of(caller), d.session_config(), now).0 {
            Addressed::NotFound => Err(GateRefusal::SessionNotFound),
            Addressed::Expired => Err(GateRefusal::SessionExpired),
            Addressed::Found(s) => if s.env != env {
                Err(GateRefusal::OtherEnvironment)
            } else if !gate_open(d.grants_table(), caller) {
                Err(GateRefusal::UnknownPrincipal)
            } else {
                Ok(s)
            },
        }
    }
}

/// The session and process tables after the prefix: the touch's table, and
/// the kill cascade for the sessions it found expired (both unchanged when
/// the prefix stopped before the touch).
pub open spec fn gate_tables(d: DaemonState, caller: Option<Caller>, env: Seq<char>, sid: Seq<char>, now: nat) -> (
    Seq<SessionView>,
    Seq<EntryView>,
) {
    if env == d.spec_env() && d.has_processes() && d.has_sessions() {
        let (o, t2, purged) = touch_spec(d.session_table(), sid, viewer_of(caller), d.session_config(), now);
        (t2, kill_sessions_spec(d.process_table(), d.spec_env(), purged))
    } else {
        (d.session_table(), d.process_table())
    }
}

/// A session created by a caller resumes for that caller: addressed by its
/// id, before it expires, it is found as stored (activity bumped), in the
/// table the creation left.
pub proof fn law_created_session_resumes_for_its_creator(
    t: Seq<SessionView>,
    created: SessionView,
    caller: Option<Caller>,
    c: SessionConfig,
    now: nat,
)
    requires
        crate::session::find_session(t, created.id) < 0,
        created.owner == caller_fp(caller),
        !crate::session::is_expired(created, c, now),
    ensures
        touch_spec(t.push(created), created.id, viewer_of(caller), c, now).0 == Addressed::Found(
            SessionView { last_activity: now, ..created },
        ),
{
    crate::session::law_created_session_resumes(t, created, viewer_of(caller), c, now);
}

/// Sessions are isolated between callers: a session owned by one
/// principal is, to any other caller (identified or not), exactly like an
/// unknown id: resuming or terminating it answers `NotFound`, and a live
/// one is left untouched.
pub proof fn law_sessions_are_isolated_between_callers(
    t: Seq<SessionView>,
    id: Seq<char>,
    owner: Caller,
    other: Option<Caller>,
    c: SessionConfig,
    now: nat,
)
    requires
        crate::session::find_session(t, id) >= 0,
        t[crate::session::find_session(t, id)].owner == Some(owner.fingerprint@),
        caller_fp(other) != Some(owner.fingerprint@),
    ensures
        touch_spec(t, id, viewer_of(other), c, now).0 is NotFound,
        crate::session::terminate_spec(t, id, viewer_of(other), c, now).0 is NotFound,
        !crate::session::is_expired(t[crate::session::find_session(t, id)], c, now) ==> touch_spec(
            t,
            id,
            viewer_of(other),
            c,
            now,
        ).1 == t,
{
    crate::session::law_hidden_sessions_answer_not_found(t, id, viewer_of(other), c, now);
}

/// Callers are isolated at every session-scoped request: in a daemon with
/// both backends, a session owned by one principal is, to any other caller
/// that passes the unknown-principal gate, an unknown session whatever its
/// age. Process requests naming it (execute, status, terminate, wait) are
/// refused at the prefix with `SessionNotFound` and get no further; resuming
/// or terminating it answers `NotFound` (never `Expired`); no listing shows
/// it; and while it is live the prefix leaves both tables as they were.
pub proof fn law_other_callers_miss_owned_sessions(
    d: DaemonState,
    owner: Caller,
    other: Option<Caller>,
    session_id: Seq<char>,
    now: nat,
)
    requires
        d.inv(),
        d.has_sessions(),
        d.has_processes(),
        gate_open(d.grants_table(), other),
        crate::session::find_session(d.session_table(), session_id) >= 0,
        d.session_table()[crate::session::find_session(d.session_table(), session_id)].owner == Some(
            owner.fingerprint@,
        ),
        caller_fp(other) != Some(owner.fingerprint@),
    ensures
        gate_result(d, other, d.spec_env(), session_id, now) == Err::<SessionView, GateRefusal>(
            GateRefusal::SessionNotFound,
        ),
        touch_spec(d.session_table(), session_id, viewer_of(other), d.session_config(), now).0 is NotFound,
        terminate_spec(d.session_table(), session_id, viewer_of(other), d.session_config(), now).0 is NotFound,
        forall|k: int|
            0 <= k < crate::session::listed(
                crate::session::purge(d.session_table(), d.session_config(), now),
                d.spec_env(),
                viewer_of(other),
            ).len() ==> (#[trigger] crate::session::listed(
                crate::session::purge(d.session_table(), d.session_config(), now),
                d.spec_env(),
                viewer_of(other),
            )[k]).id != session_id,
        !crate::session::is_expired(
            d.session_table()[crate::session::find_session(d.session_table(), session_id)],
            d.session_config(),
            now,
        ) ==> gate_tables(d, other, d.spec_env(), session_id, now) == (d.session_table(), d.process_table()),
{
    let t = d.session_table();
    let c = d.session_config();
    crate::session::law_hidden_sessions_answer_not_found(t, session_id, viewer_of(other), c, now);
    crate::session::law_listing_hides_sessions_of_others(t, session_id, viewer_of(other), d.spec_env(), c, now);
}

/// The caller's effective grants allow executing `program`.
pub open spec fn exec_allowed(
    table: Option<Seq<(Seq<char>, Seq<crate::grants::GrantView>)>>,
    caller: Option<Caller>,
    program: Seq<char>,
) -> bool {
    match effective_grants(table, caller_fp(caller)) {
        None => true,
        Some(gs) => crate::grants::spec_allow_exec(gs, program),
    }
}

/// Permissive mode grants everything: with no grants table the
/// unknown-principal gate is open to every caller (identified or not) and
/// no filesystem, execute, inspect or terminate check denies.
pub proof fn law_permissive_mode_allows_everything(
    caller: Option<Caller>,
    kind: FsGrantKind,
    rel: Seq<char>,
    program: Seq<char>,
)
    ensures
        gate_open(None, caller),
        fs_allowed(None, caller, kind, rel),
        exec_allowed(None, caller, program),
        inspect_allowed(None, caller),
        terminate_allowed(None, caller),
{
}

/// In strict mode a caller that is not in the grants table (or has no
/// identity) gets nothing: the unknown-principal gate refuses it, and every
/// filesystem, execute, inspect and terminate check denies it.
pub proof fn law_unknown_principals_hold_nothing(
    table: Seq<(Seq<char>, Seq<crate::grants::GrantView>)>,
    caller: Option<Caller>,
    kind: FsGrantKind,
    rel: Seq<char>,
    program: Seq<char>,
)
    requires
        !known_principal(Some(table), caller_fp(caller)),
    ensures
        !gate_open(Some(table), caller),
        !fs_allowed(Some(table), caller, kind, rel),
        !exec_allowed(Some(table), caller, program),
        !inspect_allowed(Some(table), caller),
        !terminate_allowed(Some(table), caller),
{
    assert(effective_grants(Some(table), caller_fp(caller)) == Some(Seq::<crate::grants::GrantView>::empty()));
}

/// The caller's effective grants allow inspecting processes.
pub open spec fn inspect_allowed(
    table: Option<Seq<(Seq<char>, Seq<crate::grants::GrantView>)>>,
    caller: Option<Caller>,
) -> bool {
    match effective_grants(table, caller_fp(caller)) {
        None => true,
        Some(gs) => crate::grants::spec_allow_inspect(gs),
    }
}

/// The caller's effective grants allow terminating (and waiting on)
/// processes.
pub open spec fn terminate_allowed(
    table: Option<Seq<(Seq<char>, Seq<crate::grants::GrantView>)>>,
    caller: Option<Caller>,
) -> bool {
    match effective_grants(table, caller_fp(caller)) {
        None => true,
        Some(gs) => crate::grants::spec_allow_terminate(gs),
    }
}

/// The caller's effective grants allow filesystem access of `kind` to `rel`.
pub open spec fn fs_allowed(
    table: Option<Seq<(Seq<char>, Seq<crate::grants::GrantView>)>>,
    caller: Option<Caller>,
    kind: FsGrantKind,
    rel: Seq<char>,
) -> bool {
    match effective_grants(table, caller_fp(caller)) {
        None => true,
        Some(gs) => spec_allow_fs(gs, kind, rel),
    }
}

impl DaemonState {
    /// The configured roots, when a filesystem backend is configured.
    pub closed spec fn fs_roots(&self) -> Option<Seq<Seq<char>>> {
        match self.fs {
            Some(f) => Some(f.roots()),
            None => None,
        }
    }

    /// Authorize a path-addressed filesystem operation and resolve its
    /// target: the environment, the backend, the unknown-principal gate,
    /// then resolution (following the final component or not, as the
    /// operation does; `probes` or `parents` hold what the filesystem
    /// reported under each root), then the grant of `kind` on the
    /// environment-relative form of the resolved path. Returns the resolved
    /// path and the authorization log lines.
    pub fn authorize_path(
        &self,
        caller: Option<&Caller>,
        environment_id: &str,
        path: &str,
        kind: FsGrantKind,
        follow_final: bool,
        probes: &[ResolveProbe],
        parents: &[Canonical],
    ) -> (r: (Result<String, RpcError>, Vec<String>))
        requires
            self.fs_roots() matches Some(roots) ==> (follow_final ==> probes@.len() == roots.len()) && (
            !follow_final ==> parents@.len() == roots.len()),
        ensures
            environment_id@ != self.spec_env() ==> (r.0 matches Err(RpcError::InvalidRequest(em)) && em@ == mismatch_message(environment_id@, self.spec_env())),
            environment_id@ == self.spec_env() && self.fs_roots() is None ==> (r.0 matches Err(
                RpcError::InternalError(im),
            ) && im@ == fs_backend_missing()),
            environment_id@ == self.spec_env() && self.fs_roots() is Some && !gate_open(
                self.grants_table(),
                opt_caller(caller),
            ) ==> (r.0 matches Err(RpcError::Forbidden(fm)) && fm@ == crate::authz::unknown_principal_message()),
            environment_id@ == self.spec_env() && gate_open(self.grants_table(), opt_caller(caller))
                ==> match self.fs_roots() {
                None => true,
                Some(roots) => {
                    let o = if follow_final {
                        resolve_spec(roots, path@, probe_views(probes@))
                    } else {
                        resolve_no_follow_spec(roots, path@, canonical_views(parents@))
                    };
                    match o {
                        Resolved::Path(c) => match relativize_from(roots, c, 0) {
                            Some(rel) => if fs_allowed(self.grants_table(), opt_caller(caller), kind, rel) {
                                r.0 matches Ok(s) && s@ == c
                            } else {
                                r.0 matches Err(RpcError::Forbidden(fm)) && fm@ == crate::authz::fs_scope(kind) + " denied for '"@ + rel + "'"@
                            },
                            None => r.0 matches Err(e) && e@ == RpcErrorView::InternalError(escape_blocked_message()),
                        },
                        Resolved::InvalidPath => r.0 matches Err(RpcError::InvalidRequest(_)),
                        Resolved::Escape => r.0 matches Err(e) && e@ == RpcErrorView::InternalError(escape_blocked_message()),
                        Resolved::NotFound => r.0 matches Err(e) && e@ == RpcErrorView::NotFound(
                            path@ + ": not found"@,
                        ),
                        Resolved::Io => r.0 matches Err(RpcError::InternalError(_)),
                    }
                },
            },
            log_is(
                r.1@,
                if environment_id@ == self.spec_env() && gate_open(self.grants_table(), opt_caller(caller)) {
                    match self.fs_roots() {
                        Some(roots) => match resolution(roots, path@, follow_final, probes@, parents@) {
                            Resolved::Path(c) => match relativize_from(roots, c, 0) {
                                Some(rel) => Some(
                                    crate::authz::fs_check_line(self.grants_table(), opt_caller(caller), kind, rel),
                                ),
                                None => None,
                            },
                            _ => None,
                        },
                        None => None,
                    }
                } else {
                    None
                },
            ),
    {
        let mut logs: Vec<String> = Vec::new();
        match self.check_environment(environment_id) {
            Ok(()) => {},
            Err(e) => {
                return (Err(e), logs);
            },
        }
        let fs = match &self.fs {
            Some(f) => f,
            None => {
                return (Err(RpcError::InternalError(String::from_str("filesystem backend not configured"))), logs);
            },
        };
        match self.authz.deny_unknown_principal(caller) {
            Ok(()) => {},
            Err(e) => {
                return (Err(e), logs);
            },
        }
        let resolved = if follow_final {
            fs.resolve(path, probes)
        } else {
            fs.resolve_no_follow(path, parents)
        };
        let canonical = match resolved {
            Ok(c) => c,
            Err(e) => {
                return (Err(fs_error_to_rpc(e, path)), logs);
            },
        };
        let rel = match fs.relativize(canonical.as_str()) {
            Some(rel) => rel,
            None => {
                proof {
                    reveal_strlit("filesystem escape blocked: path escapes allowed boundary");
                    reveal_strlit("filesystem escape blocked: ");
                    reveal_strlit("path escapes allowed boundary");
                    assert(escape_blocked_message()
                        =~= "filesystem escape blocked: path escapes allowed boundary"@);
                }
                return (
                    Err(RpcError::InternalError(String::from_str(
                        "filesystem escape blocked: path escapes allowed boundary",
                    ))),
                    logs,
                );
            },
        };
        let (decision, line) = self.authz.check_fs_grant(caller, kind, rel.as_str());
        logs.push(line);
        match decision {
            Ok(()) => (Ok(canonical), logs),
            Err(e) => (Err(e), logs),
        }
    }

    /// Authorize a directory creation: the path validation, the
    /// environment, the backend, the unknown-principal gate, then the write
    /// grant on the lexical creation path (the target usually does not
    /// exist yet). Returns the decision and the authorization log lines.
    pub fn authorize_create_directory(&self, caller: Option<&Caller>, environment_id: &str, path: &str) -> (r: (
        Result<(), RpcError>,
        Vec<String>,
    ))
        ensures
            path@.len() == 0 ==> r.0 matches Err(RpcError::InvalidRequest(_)),
            path@.len() > 0 && environment_id@ != self.spec_env() ==> (r.0 matches Err(RpcError::InvalidRequest(em)) && em@ == mismatch_message(environment_id@, self.spec_env())),
            path@.len() > 0 && environment_id@ == self.spec_env() && self.fs_roots() is None ==> (r.0 matches Err(
                RpcError::InternalError(im),
            ) && im@ == fs_backend_missing()),
            path@.len() > 0 && environment_id@ == self.spec_env() && self.fs_roots() is Some && !gate_open(
                self.grants_table(),
                opt_caller(caller),
            ) ==> (r.0 matches Err(RpcError::Forbidden(fm)) && fm@ == crate::authz::unknown_principal_message()),
            path@.len() > 0 && environment_id@ == self.spec_env() && self.fs_roots() is Some && gate_open(
                self.grants_table(),
                opt_caller(caller),
            ) ==> if !crate::fs::creation_components_ok(path@) {
                r.0 matches Err(RpcError::InvalidRequest(_))
            } else if fs_allowed(
                self.grants_table(),
                opt_caller(caller),
                FsGrantKind::Write,
                crate::paths::join(crate::paths::components(path@)),
            ) {
                r.0 is Ok
            } else {
                r.0 matches Err(RpcError::Forbidden(fm)) && fm@ == crate::authz::fs_scope(FsGrantKind::Write) + " denied for '"@ + crate::paths::join(crate::paths::components(path@)) + "'"@
            },
            r.0 is Ok ==> crate::fs::creation_components_ok(path@) && fs_allowed(
                self.grants_table(),
                opt_caller(caller),
                FsGrantKind::Write,
                crate::paths::join(crate::paths::components(path@)),
            ),
            log_is(
                r.1@,
                if path@.len() > 0 && environment_id@ == self.spec_env() && self.fs_roots() is Some && gate_open(
                    self.grants_table(),
                    opt_caller(caller),
                ) && crate::fs::creation_components_ok(path@) {
                    Some(
                        crate::authz::fs_check_line(
                            self.grants_table(),
                            opt_caller(caller),
                            FsGrantKind::Write,
                            crate::paths::join(crate::paths::components(path@)),
                        ),
                    )
                } else {
                    None
                },
            ),
    {
        let mut logs: Vec<String> = Vec::new();
        match validate_path_request(path) {
            Ok(()) => {},
            Err(e) => {
                return (Err(e), logs);
            },
        }
        match self.check_environment(environment_id) {
            Ok(()) => {},
            Err(e) => {
                return (Err(e), logs);
            },
        }
        let fs = match &self.fs {
            Some(f) => f,
            None => {
                return (Err(RpcError::InternalError(String::from_str("filesystem backend not configured"))), logs);
            },
        };
        match self.authz.deny_unknown_principal(caller) {
            Ok(()) => {},
            Err(e) => {
                return (Err(e), logs);
            },
        }
        let rel = match fs.creation_rel(path) {
            Ok(rel) => rel,
            Err(e) => {
                return (Err(fs_error_to_rpc(e, path)), logs);
            },
        };
        let (decision, line) = self.authz.check_fs_grant(caller, FsGrantKind::Write, rel.as_str());
        logs.push(line);
        (decision, logs)
    }

    /// The process backend, after the environment binding.
    fn require_proc(&self, environment_id: &str) -> (r: Result<(), RpcError>)
        ensures
            environment_id@ != self.spec_env() ==> (r matches Err(RpcError::InvalidRequest(em)) && em@ == mismatch_message(environment_id@, self.spec_env())),
            environment_id@ == self.spec_env() && !self.has_processes() ==> (r matches Err(RpcError::InternalError(im)) && im@ == proc_backend_missing()),
            r is Ok <==> environment_id@ == self.spec_env() && self.has_processes(),
    {
        match self.check_environment(environment_id) {
            Ok(()) => {},
            Err(e) => {
                return Err(e);
            },
        }
        if !self.proc_enabled {
            return Err(RpcError::InternalError(String::from_str("process backend not configured")));
        }
        Ok(())
    }

    /// The common prefix of session-scoped process requests: the process
    /// backend, the live-session touch, the session's environment (a
    /// mismatch misses with `not_found`), the unknown-principal gate.
    fn process_gate(
        &mut self,
        caller: Option<&Caller>,
        environment_id: &str,
        session_id: &str,
        now: u64,
        not_found: String,
    ) -> (r: Result<SessionInfo, RpcError>)
        requires
            old(self).inv(),
        ensures
            final(self).inv(),
            final(self).spec_env() == old(self).spec_env(),
            final(self).proc_env() == old(self).proc_env(),
            final(self).session_env() == old(self).session_env(),
            final(self).has_sessions() == old(self).has_sessions(),
            final(self).has_processes() == old(self).has_processes(),
            final(self).grants_table() == old(self).grants_table(),
            final(self).session_config() == old(self).session_config(),
            final(self).process_config() == old(self).process_config(),
            environment_id@ != old(self).spec_env() ==> (r matches Err(RpcError::InvalidRequest(em)) && em@ == mismatch_message(environment_id@, old(self).spec_env())),
            environment_id@ == old(self).spec_env() && !old(self).has_processes() ==> (r matches Err(
                RpcError::InternalError(im),
            ) && im@ == proc_backend_missing()),
            environment_id@ == old(self).spec_env() && old(self).has_processes() && !old(self).has_sessions()
                ==> (r matches Err(RpcError::InternalError(im)) && im@ == session_backend_missing()),
            r matches Ok(info) ==> {
                &&& environment_id@ == old(self).spec_env()
                &&& old(self).has_processes()
                &&& old(self).has_sessions()
                &&& info@.env == environment_id@
                &&& gate_open(old(self).grants_table(), opt_caller(caller))
                &&& touch_spec(
                    old(self).session_table(),
                    session_id@,
                    viewer_of(opt_caller(caller)),
                    old(self).session_config(),
                    now as nat,
                ).0 == Addressed::Found(info@)
            },
            environment_id@ == old(self).spec_env() && old(self).has_processes() && old(self).has_sessions() ==> {
                let (o, t2, purged) = touch_spec(
                    old(self).session_table(),
                    session_id@,
                    viewer_of(opt_caller(caller)),
                    old(self).session_config(),
                    now as nat,
                );
                &&& final(self).session_table() == t2
                &&& final(self).process_table() == kill_sessions_spec(
                    old(self).process_table(),
                    old(self).spec_env(),
                    purged,
                )
                &&& (o is NotFound ==> (r matches Err(RpcError::SessionNotFound(_))))
                &&& (o is Expired ==> (r matches Err(RpcError::SessionExpired(_))))
                &&& (o matches Addressed::Found(s) ==> (s.env == environment_id@ && gate_open(
                    old(self).grants_table(),
                    opt_caller(caller),
                ) ==> (r matches Ok(info) && info@ == s)))
                &&& (o matches Addressed::Found(s) ==> (s.env != environment_id@ ==> r matches Err(
                    RpcError::NotFound(_),
                )))
                &&& (o matches Addressed::Found(s) ==> (s.env == environment_id@ && !gate_open(
                    old(self).grants_table(),
                    opt_caller(caller),
                ) ==> (r matches Err(RpcError::Forbidden(fm)) && fm@ == crate::authz::unknown_principal_message())))
            },
            match gate_result(*old(self), opt_caller(caller), environment_id@, session_id@, now as nat) {
                Ok(s) => r matches Ok(info) && info@ == s,
                Err(k) => r matches Err(e) && refusal_error(k, e),
            },
            final(self).session_table() == gate_tables(
                *old(self),
                opt_caller(caller),
                environment_id@,
                session_id@,
                now as nat,
            ).0,
            final(self).process_table() == gate_tables(
                *old(self),
                opt_caller(caller),
                environment_id@,
                session_id@,
                now as nat,
            ).1,
    {
        match self.require_proc(environment_id) {
            Ok(()) => {},
            Err(e) => {
                return Err(e);
            },
        }
        let session = match self.require_live_session(caller, session_id, now) {
            Ok(info) => info,
            Err(e) => {
                return Err(e);
            },
        };
        if !str_eq(session.environment_id.as_str(), environment_id) {
            return Err(RpcError::NotFound(not_found));
        }
        match self.authz.deny_unknown_principal(caller) {
            Ok(()) => {},
            Err(e) => {
                return Err(e);
            },
        }
        Ok(session)
    }

    /// Plan a structured execution: the session-scoped prefix (backend,
    /// live session, environment, unknown-principal gate), request
    /// validation, the daemon's execution policy ("nobody may run this")
    /// before the caller's execute grant ("you may not"), then the spawn
    /// plan (session binding, `PATH`, working directory, merged variables).
    /// Returns the plan, the touched session's id, and the authorization
    /// log lines.
    pub fn execute_prepare(&mut self, caller: Option<&Caller>, req: &ExecuteRequest, now: u64) -> (r: (
        Result<SpawnPlan, RpcError>,
        Vec<String>,
    ))
        requires
            old(self).inv(),
        ensures
            final(self).inv(),
            final(self).spec_env() == old(self).spec_env(),
            final(self).has_sessions() == old(self).has_sessions(),
            final(self).has_processes() == old(self).has_processes(),
            final(self).grants_table() == old(self).grants_table(),
            req.environment_id@ != old(self).spec_env() ==> (r.0 matches Err(RpcError::InvalidRequest(em)) && em@ == mismatch_message(req.environment_id@, old(self).spec_env())),
            req.environment_id@ == old(self).spec_env() && !old(self).has_processes() ==> (r.0 matches Err(
                RpcError::InternalError(im),
            ) && im@ == proc_backend_missing()),
            req.environment_id@ == old(self).spec_env() && old(self).has_processes() && !old(self).has_sessions()
                ==> (r.0 matches Err(RpcError::InternalError(im)) && im@ == session_backend_missing()),
            req.environment_id@ == old(self).spec_env() && old(self).has_processes() && old(self).has_sessions() ==> {
                let (o, t2, purged) = touch_spec(
                    old(self).session_table(),
                    req.session_id@,
                    viewer_of(opt_caller(caller)),
                    old(self).session_config(),
                    now as nat,
                );
                &&& final(self).session_table() == t2
                &&& final(self).process_table() == kill_sessions_spec(
                    old(self).process_table(),
                    old(self).spec_env(),
                    purged,
                )
                &&& match o {
                    Addressed::NotFound => r.0 matches Err(RpcError::SessionNotFound(_)),
                    Addressed::Expired => r.0 matches Err(RpcError::SessionExpired(_)),
                    Addressed::Found(s) => if s.env != req.environment_id@ {
                        r.0 matches Err(RpcError::NotFound(_))
                    } else if !gate_open(old(self).grants_table(), opt_caller(caller)) {
                        r.0 matches Err(RpcError::Forbidden(fm)) && fm@ == crate::authz::unknown_principal_message()
                    } else if !execute_request_valid(*req) {
                        r.0 matches Err(RpcError::InvalidRequest(_))
                    } else if !(policy_outcome(old(self).process_config(), req.program@) is Allowed) {
                        r.0 matches Err(RpcError::DeniedExecutable(_))
                    } else if !exec_allowed(old(self).grants_table(), opt_caller(caller), req.program@) {
                        r.0 matches Err(RpcError::Forbidden(fm)) && fm@ == "process.execute denied for '"@ + crate::names::normalized_program(req.program@) + "'"@
                    } else if req.environment_id@ != old(self).proc_env() {
                        r.0 matches Err(RpcError::InvalidRequest(_))
                    } else if crate::envvars::has_key(s.vars, crate::envvars::path_key()) {
                        r.0 matches Err(RpcError::InvalidRequest(_))
                    } else {
                        r.0 matches Ok(plan) && {
                            &&& plan.program@ == req.program@
                            &&& crate::grants::string_views(plan.args@) == crate::grants::string_views(req.args@)
                            &&& plan.working_directory@ == if req.working_directory@.len() == 0 {
                                s.workdir
                            } else {
                                req.working_directory@
                            }
                            &&& crate::envvars::pair_views(plan.env_vars@) == crate::envvars::child_env(
                                s.vars + crate::envvars::pair_views(req.env_vars@),
                            )
                        }
                    },
                }
            },
            log_is(
                r.1@,
                match gate_result(
                    *old(self),
                    opt_caller(caller),
                    req.environment_id@,
                    req.session_id@,
                    now as nat,
                ) {
                    Ok(_) => if execute_request_valid(*req) && policy_outcome(
                        old(self).process_config(),
                        req.program@,
                    ) is Allowed {
                        Some(crate::authz::exec_check_line(old(self).grants_table(), opt_caller(caller), req.program@))
                    } else {
                        None
                    },
                    Err(_) => None,
                },
            ),
            r.0 is Ok ==> {
                &&& old(self).has_processes()
                &&& gate_open(old(self).grants_table(), opt_caller(caller))
                &&& execute_request_valid(*req)
                &&& policy_outcome(old(self).process_config(), req.program@) is Allowed
                &&& match effective_grants(old(self).grants_table(), caller_fp(opt_caller(caller))) {
                    None => true,
                    Some(gs) => crate::grants::spec_allow_exec(gs, req.program@),
                }
                &&& touch_spec(
                    old(self).session_table(),
                    req.session_id@,
                    viewer_of(opt_caller(caller)),
                    old(self).session_config(),
                    now as nat,
                ).0 is Found
            },
            r.0 is Ok ==> final(self).process_table().len() == old(self).process_table().len(),
    {
        let mut logs: Vec<String> = Vec::new();
        let mut nf = String::from_str("unknown session '");
        push_str(&mut nf, req.session_id.as_str());
        push_str(&mut nf, "'");
        let session = match self.process_gate(caller, req.environment_id.as_str(), req.session_id.as_str(), now, nf) {
            Ok(s) => s,
            Err(e) => {
                return (Err(e), logs);
            },
        };
        proof {
            law_purged_sessions_processes_are_killed(
                old(self).proc.entries(),
                old(self).environment_id@,
                touch_spec(
                    old(self).sessions.table(),
                    req.session_id@,
                    viewer_of(opt_caller(caller)),
                    old(self).sessions.spec_config(),
                    now as nat,
                ).2,
            );
            crate::session::lemma_found_session_has_id(
                old(self).sessions.table(),
                req.session_id@,
                viewer_of(opt_caller(caller)),
                old(self).sessions.spec_config(),
                now as nat,
            );
        }
        if req.program.unicode_len() == 0 {
            return (Err(RpcError::InvalidRequest(String::from_str("invalid request: program must not be empty"))), logs);
        }
        match crate::envvars::validate_env_vars(req.env_vars.as_slice()) {
            Ok(()) => {},
            Err(m) => {
                let mut msg = String::from_str("invalid request: ");
                push_str(&mut msg, m.as_str());
                return (Err(RpcError::InvalidRequest(msg)), logs);
            },
        }
        match self.proc.config().check_policy(req.program.as_str()) {
            Ok(()) => {},
            Err(e) => {
                return (Err(process_error_to_rpc(e)), logs);
            },
        }
        let (grant, line) = self.authz.check_exec_grant(caller, req.program.as_str());
        logs.push(line);
        match grant {
            Ok(()) => {},
            Err(e) => {
                return (Err(e), logs);
            },
        }
        match self.proc.prepare_start(req, &session) {
            Ok(plan) => (Ok(plan), logs),
            Err(e) => (Err(process_error_to_rpc(e)), logs),
        }
    }

    /// Reserve the table slot of a planned spawn once its working directory
    /// was examined: a directory that is not an existing directory inside
    /// the roots fails the spawn (generic messages); otherwise the slot is
    /// reserved (evictions, per-session cap, global bound, fresh id).
    pub fn execute_reserve(&mut self, req: &ExecuteRequest, workdir: &WorkdirStatus, now: u64) -> (r: Result<
        String,
        RpcError,
    >)
        requires
            old(self).inv(),
        ensures
            final(self).inv(),
            final(self).spec_env() == old(self).spec_env(),
            final(self).has_sessions() == old(self).has_sessions(),
            final(self).has_processes() == old(self).has_processes(),
            final(self).grants_table() == old(self).grants_table(),
            final(self).session_table() == old(self).session_table(),
            !old(self).has_processes() ==> (r matches Err(RpcError::InternalError(im)) && im@ == proc_backend_missing()),
            !(workdir is Directory) ==> r is Err && final(self).process_table() == old(self).process_table(),
            old(self).has_processes() && !(workdir is Directory) ==> match *workdir {
                WorkdirStatus::NoBackend | WorkdirStatus::OtherError(_) => r matches Err(RpcError::InternalError(_)),
                _ => r matches Err(RpcError::InvalidRequest(_)),
            },
            old(self).has_processes() && workdir is Directory ==> {
                let c = old(self).process_config();
                let t1 = crate::proc_table::evict_expired(old(self).process_table(), c.retention_secs as nat, now as nat);
                let (room, t2) = crate::proc_table::make_room(t1, c, now as nat);
                if crate::proc_table::session_count(t1, req.environment_id@, req.session_id@)
                    >= c.max_processes_per_session {
                    r matches Err(RpcError::CapacityExceeded(_)) && final(self).process_table() == t1
                } else if !room {
                    r matches Err(RpcError::CapacityExceeded(_)) && final(self).process_table() == t2
                } else {
                    ||| r matches Err(RpcError::InternalError(_)) && final(self).process_table() == t2
                    ||| r matches Ok(pid) && find_entry(t2, req.environment_id@, req.session_id@, pid@) < 0
                        && final(self).process_table() == t2.push(
                        crate::proc_table::new_entry(
                            req.environment_id@,
                            req.session_id@,
                            pid@,
                            req.program@,
                            now as nat,
                        ),
                    )
                }
            },
            r matches Ok(pid) ==> {
                &&& workdir is Directory
                &&& old(self).has_processes()
                &&& crate::ids::is_generated_id(pid@, crate::proc_table::process_prefix())
                &&& final(self).process_table().last() == crate::proc_table::new_entry(
                    req.environment_id@,
                    req.session_id@,
                    pid@,
                    req.program@,
                    now as nat,
                )
                &&& final(self).process_table().len() <= old(self).process_config().max_processes
                &&& crate::proc_table::session_count(final(self).process_table(), req.environment_id@, req.session_id@)
                    <= old(self).process_config().max_processes_per_session
            },
    {
        if !self.proc_enabled {
            return Err(RpcError::InternalError(String::from_str("process backend not configured")));
        }
        match crate::process::workdir_error(workdir) {
            Some(e) => {
                return Err(process_error_to_rpc(e));
            },
            None => {},
        }
        match self.proc.reserve(req, now) {
            Ok(pid) => Ok(pid),
            Err(e) => Err(process_error_to_rpc(e)),
        }
    }

    /// Release the slot of a spawn that failed after its reservation.
    pub fn execute_release(&mut self, req: &ExecuteRequest, pid: &str)
        requires
            old(self).inv(),
        ensures
            final(self).inv(),
            final(self).spec_env() == old(self).spec_env(),
            final(self).has_sessions() == old(self).has_sessions(),
            final(self).has_processes() == old(self).has_processes(),
            final(self).grants_table() == old(self).grants_table(),
            final(self).session_table() == old(self).session_table(),
            ({
                let t = old(self).process_table();
                let i = find_entry(t, req.environment_id@, req.session_id@, pid@);
                final(self).process_table() == if i < 0 {
                    t
                } else {
                    t.remove(i)
                }
            }),
    {
        self.proc.release(req.environment_id.as_str(), req.session_id.as_str(), pid)
    }

    /// A process's state: the session-scoped prefix (a session of another
    /// environment misses as an unknown process), the inspect grant, then
    /// the lookup by the full key.
    pub fn process_status(
        &mut self,
        caller: Option<&Caller>,
        environment_id: &str,
        session_id: &str,
        process_id: &str,
        now: u64,
    ) -> (r: (Result<ProcessState, RpcError>, Vec<String>))
        requires
            old(self).inv(),
        ensures
            final(self).inv(),
            final(self).spec_env() == old(self).spec_env(),
            final(self).has_sessions() == old(self).has_sessions(),
            final(self).has_processes() == old(self).has_processes(),
            final(self).grants_table() == old(self).grants_table(),
            environment_id@ != old(self).spec_env() ==> (r.0 matches Err(RpcError::InvalidRequest(em)) && em@ == mismatch_message(environment_id@, old(self).spec_env())),
            ({
                let c = opt_caller(caller);
                let (ts, tp) = gate_tables(*old(self), c, environment_id@, session_id@, now as nat);
                &&& final(self).session_table() == ts
                &&& final(self).process_table() == tp
                &&& log_is(
                    r.1@,
                    match gate_result(*old(self), c, environment_id@, session_id@, now as nat) {
                        Ok(_) => Some(crate::authz::inspect_check_line(old(self).grants_table(), c)),
                        Err(_) => None,
                    },
                )
                &&& match gate_result(*old(self), c, environment_id@, session_id@, now as nat) {
                    Err(k) => r.0 matches Err(e) && refusal_error(k, e),
                    Ok(_) => if !inspect_allowed(old(self).grants_table(), c) {
                        r.0 matches Err(RpcError::Forbidden(fm)) && fm@ == "process.inspect denied"@
                    } else {
                        let i = find_entry(tp, environment_id@, session_id@, process_id@);
                        if i < 0 {
                            r.0 matches Err(RpcError::NotFound(_))
                        } else {
                            r.0 matches Ok(st) && st@ == tp[i].state
                        }
                    },
                }
            }),
            r.0 matches Ok(st) ==> {
                &&& gate_open(old(self).grants_table(), opt_caller(caller))
                &&& match effective_grants(old(self).grants_table(), caller_fp(opt_caller(caller))) {
                    None => true,
                    Some(gs) => crate::grants::spec_allow_inspect(gs),
                }
                &&& {
                    let i = find_entry(final(self).process_table(), environment_id@, session_id@, process_id@);
                    i >= 0 && st@ == final(self).process_table()[i].state
                }
            },
    {
        let mut logs: Vec<String> = Vec::new();
        let mut nf = String::from_str("unknown process id '");
        push_str(&mut nf, process_id);
        push_str(&mut nf, "'");
        match self.process_gate(caller, environment_id, session_id, now, nf) {
            Ok(_) => {},
            Err(e) => {
                return (Err(e), logs);
            },
        }
        let (grant, line) = self.authz.check_inspect_grant(caller);
        logs.push(line);
        match grant {
            Ok(()) => {},
            Err(e) => {
                return (Err(e), logs);
            },
        }
        match self.proc.status(environment_id, session_id, process_id) {
            Ok(st) => (Ok(st), logs),
            Err(e) => (Err(process_error_to_rpc(e)), logs),
        }
    }

    /// The terminate decision: the session-scoped prefix, the terminate
    /// grant, then the kill request (`true` when the process was live and
    /// its kill was requested, `false` when it had already ended).
    pub fn terminate_process(
        &mut self,
        caller: Option<&Caller>,
        environment_id: &str,
        session_id: &str,
        process_id: &str,
        now: u64,
    ) -> (r: (Result<bool, RpcError>, Vec<String>))
        requires
            old(self).inv(),
        ensures
            final(self).inv(),
            final(self).spec_env() == old(self).spec_env(),
            final(self).has_sessions() == old(self).has_sessions(),
            final(self).has_processes() == old(self).has_processes(),
            final(self).grants_table() == old(self).grants_table(),
            environment_id@ != old(self).spec_env() ==> (r.0 matches Err(RpcError::InvalidRequest(em)) && em@ == mismatch_message(environment_id@, old(self).spec_env())),
            ({
                let c = opt_caller(caller);
                let (ts, tp) = gate_tables(*old(self), c, environment_id@, session_id@, now as nat);
                &&& final(self).session_table() == ts
                &&& log_is(
                    r.1@,
                    match gate_result(*old(self), c, environment_id@, session_id@, now as nat) {
                        Ok(_) => Some(crate::authz::terminate_check_line(old(self).grants_table(), c)),
                        Err(_) => None,
                    },
                )
                &&& match gate_result(*old(self), c, environment_id@, session_id@, now as nat) {
                    Err(k) => r.0 matches Err(e) && refusal_error(k, e) && final(self).process_table() == tp,
                    Ok(_) => if !terminate_allowed(old(self).grants_table(), c) {
                        r.0 matches Err(RpcError::Forbidden(fm)) && fm@ == "process.terminate denied"@ && final(self).process_table() == tp
                    } else {
                        let i = find_entry(tp, environment_id@, session_id@, process_id@);
                        if i < 0 {
                            r.0 matches Err(RpcError::NotFound(_)) && final(self).process_table() == tp
                        } else if crate::proc_table::is_terminal(tp[i]) {
                            r.0 == Ok::<bool, RpcError>(false) && final(self).process_table() == tp
                        } else {
                            r.0 == Ok::<bool, RpcError>(true) && final(self).process_table() == tp.update(
                                i,
                                EntryView { kill_requested: true, ..tp[i] },
                            )
                        }
                    },
                }
            }),
            r.0 is Ok ==> {
                &&& gate_open(old(self).grants_table(), opt_caller(caller))
                &&& match effective_grants(old(self).grants_table(), caller_fp(opt_caller(caller))) {
                    None => true,
                    Some(gs) => crate::grants::spec_allow_terminate(gs),
                }
                &&& find_entry(final(self).process_table(), environment_id@, session_id@, process_id@) >= 0
            },
            r.0 == Ok::<bool, RpcError>(true) ==> {
                let i = find_entry(final(self).process_table(), environment_id@, session_id@, process_id@);
                final(self).process_table()[i].kill_requested
            },
    {
        let mut logs: Vec<String> = Vec::new();
        let mut nf = String::from_str("unknown process id '");
        push_str(&mut nf, process_id);
        push_str(&mut nf, "'");
        match self.process_gate(caller, environment_id, session_id, now, nf) {
            Ok(_) => {},
            Err(e) => {
                return (Err(e), logs);
            },
        }
        let (grant, line) = self.authz.check_terminate_grant(caller);
        logs.push(line);
        match grant {
            Ok(()) => {},
            Err(e) => {
                return (Err(e), logs);
            },
        }
        let ghost t = self.proc.entries();
        proof {
            crate::proc_table::lemma_find_entry(t, environment_id@, session_id@, process_id@);
        }
        match self.proc.request_kill(environment_id, session_id, process_id) {
            Ok(b) => {
                proof {
                    let i = find_entry(t, environment_id@, session_id@, process_id@);
                    if i >= 0 {
                        let u = self.proc.entries();
                        crate::proc_table::lemma_find_entry(u, environment_id@, session_id@, process_id@);
                        assert(u.len() == t.len());
                        assert(crate::proc_table::has_key(u[i], environment_id@, session_id@, process_id@));
                        lemma_find_first_key(u, environment_id@, session_id@, process_id@, i);
                        lemma_find_entry_same_keys(t, u, environment_id@, session_id@, process_id@);
                    }
                }
                (Ok(b), logs)
            },
            Err(e) => (Err(process_error_to_rpc(e)), logs),
        }
    }

    /// The checks before a wait: the session-scoped prefix, the terminate
    /// grant (waiting observes terminal output), the timeout bound, then
    /// the process must exist. The caller then polls [`DaemonState::wait_poll`].
    pub fn wait_prepare(
        &mut self,
        caller: Option<&Caller>,
        environment_id: &str,
        session_id: &str,
        process_id: &str,
        timeout_secs: u64,
        now: u64,
    ) -> (r: (Result<(), RpcError>, Vec<String>))
        requires
            old(self).inv(),
        ensures
            final(self).inv(),
            final(self).spec_env() == old(self).spec_env(),
            final(self).has_sessions() == old(self).has_sessions(),
            final(self).has_processes() == old(self).has_processes(),
            final(self).grants_table() == old(self).grants_table(),
            environment_id@ != old(self).spec_env() ==> (r.0 matches Err(RpcError::InvalidRequest(em)) && em@ == mismatch_message(environment_id@, old(self).spec_env())),
            ({
                let c = opt_caller(caller);
                let (ts, tp) = gate_tables(*old(self), c, environment_id@, session_id@, now as nat);
                &&& final(self).session_table() == ts
                &&& final(self).process_table() == tp
                &&& log_is(
                    r.1@,
                    match gate_result(*old(self), c, environment_id@, session_id@, now as nat) {
                        Ok(_) => Some(crate::authz::terminate_check_line(old(self).grants_table(), c)),
                        Err(_) => None,
                    },
                )
                &&& match gate_result(*old(self), c, environment_id@, session_id@, now as nat) {
                    Err(k) => r.0 matches Err(e) && refusal_error(k, e),
                    Ok(_) => if !terminate_allowed(old(self).grants_table(), c) {
                        r.0 matches Err(RpcError::Forbidden(fm)) && fm@ == "process.terminate denied"@
                    } else if !wait_timeout_valid(timeout_secs) {
                        r.0 matches Err(RpcError::InvalidRequest(_))
                    } else if find_entry(tp, environment_id@, session_id@, process_id@) < 0 {
                        r.0 matches Err(RpcError::NotFound(_))
                    } else {
                        r.0 is Ok
                    },
                }
            }),
            r.0 is Ok ==> {
                &&& gate_open(old(self).grants_table(), opt_caller(caller))
                &&& wait_timeout_valid(timeout_secs)
                &&& find_entry(final(self).process_table(), environment_id@, session_id@, process_id@) >= 0
            },
    {
        let mut logs: Vec<String> = Vec::new();
        let mut nf = String::from_str("unknown process id '");
        push_str(&mut nf, process_id);
        push_str(&mut nf, "'");
        match self.process_gate(caller, environment_id, session_id, now, nf) {
            Ok(_) => {},
            Err(e) => {
                return (Err(e), logs);
            },
        }
        let (grant, line) = self.authz.check_terminate_grant(caller);
        logs.push(line);
        match grant {
            Ok(()) => {},
            Err(e) => {
                return (Err(e), logs);
            },
        }
        match crate::process::validate_wait_timeout(timeout_secs) {
            Ok(()) => {},
            Err(e) => {
                return (Err(process_error_to_rpc(e)), logs);
            },
        }
        match self.proc.status(environment_id, session_id, process_id) {
            Ok(_) => (Ok(()), logs),
            Err(e) => (Err(process_error_to_rpc(e)), logs),
        }
    }

    /// One poll of a prepared wait (see [`ProcessManager::wait_poll`]).
    pub fn wait_poll(&self, environment_id: &str, session_id: &str, process_id: &str, deadline_passed: bool) -> (r:
        Result<Option<WaitOutcome>, RpcError>)
        ensures
            ({
                let t = self.process_table();
                let i = find_entry(t, environment_id@, session_id@, process_id@);
                if i < 0 {
                    r matches Err(RpcError::NotFound(_))
                } else if crate::proc_table::is_terminal(t[i]) || deadline_passed {
                    r matches Ok(Some(w)) && crate::proc_table::wait_answer(t[i], deadline_passed, w)
                } else {
                    r matches Ok(None)
                }
            }),
    {
        match self.proc.wait_poll(environment_id, session_id, process_id, deadline_passed) {
            Ok(o) => Ok(o),
            Err(e) => Err(process_error_to_rpc(e)),
        }
    }

    /// Append a chunk of a process's output (the supervisor's pipe reader).
    pub fn append_output(&mut self, env: &str, session: &str, pid: &str, kind: StreamKind, chunk: &[u8])
        requires
            old(self).inv(),
        ensures
            final(self).inv(),
            final(self).spec_env() == old(self).spec_env(),
            final(self).has_sessions() == old(self).has_sessions(),
            final(self).has_processes() == old(self).has_processes(),
            final(self).grants_table() == old(self).grants_table(),
            final(self).session_table() == old(self).session_table(),
            ({
                let t = old(self).process_table();
                let i = find_entry(t, env@, session@, pid@);
                final(self).process_table() == if i < 0 {
                    t
                } else {
                    t.update(
                        i,
                        crate::proc_table::with_output(
                            t[i],
                            kind,
                            chunk@,
                            old(self).process_config().max_output_bytes as nat,
                        ),
                    )
                }
            }),
    {
        self.proc.append_output(env, session, pid, kind, chunk)
    }

    /// Mark a process's output incomplete (the drain timed out).
    pub fn mark_truncated(&mut self, env: &str, session: &str, pid: &str)
        requires
            old(self).inv(),
        ensures
            final(self).inv(),
            final(self).spec_env() == old(self).spec_env(),
            final(self).has_sessions() == old(self).has_sessions(),
            final(self).has_processes() == old(self).has_processes(),
            final(self).grants_table() == old(self).grants_table(),
            final(self).session_table() == old(self).session_table(),
            ({
                let t = old(self).process_table();
                let i = find_entry(t, env@, session@, pid@);
                final(self).process_table() == if i < 0 {
                    t
                } else {
                    t.update(i, EntryView { truncated: true, ..t[i] })
                }
            }),
    {
        self.proc.mark_truncated(env, session, pid)
    }

    /// Publish a process's final state at `now` (the supervisor).
    pub fn finish_process(&mut self, env: &str, session: &str, pid: &str, status: ProcessState, now: u64)
        requires
            old(self).inv(),
        ensures
            final(self).inv(),
            final(self).spec_env() == old(self).spec_env(),
            final(self).has_sessions() == old(self).has_sessions(),
            final(self).has_processes() == old(self).has_processes(),
            final(self).grants_table() == old(self).grants_table(),
            final(self).session_table() == old(self).session_table(),
            ({
                let t = old(self).process_table();
                let i = find_entry(t, env@, session@, pid@);
                final(self).process_table() == if i < 0 {
                    t
                } else {
                    t.update(i, EntryView { state: status@, finished_at: Some(now as nat), ..t[i] })
                }
            }),
    {
        self.proc.finish(env, session, pid, status, now)
    }

    /// Whether the kill of a process was requested (the supervisor polls).
    pub fn kill_requested(&self, env: &str, session: &str, pid: &str) -> (r: bool)
        ensures
            ({
                let t = self.process_table();
                let i = find_entry(t, env@, session@, pid@);
                r == (i >= 0 && t[i].kill_requested)
            }),
    {
        self.proc.kill_requested(env, session, pid)
    }
}

proof fn lemma_find_first_key(t: Seq<EntryView>, env: Seq<char>, session: Seq<char>, pid: Seq<char>, i: int)
    requires
        0 <= i < t.len(),
        crate::proc_table::has_key(t[i], env, session, pid),
    ensures
        find_entry(t, env, session, pid) >= 0,
{
    crate::proc_table::lemma_find_entry(t, env, session, pid);
}


proof fn lemma_find_entry_same_keys(t: Seq<EntryView>, u: Seq<EntryView>, env: Seq<char>, session: Seq<char>, pid: Seq<char>)
    requires
        t.len() == u.len(),
        forall|k: int| 0 <= k < t.len() ==> #[trigger] crate::proc_table::same_key(t[k], u[k]) && t[k].env == u[k].env
            && t[k].session == u[k].session && t[k].pid == u[k].pid,
    ensures
        find_entry(t, env, session, pid) == find_entry(u, env, session, pid),
    decreases t.len(),
{
    if t.len() > 0 {
        let td = t.drop_last();
        let ud = u.drop_last();
        assert forall|k: int| 0 <= k < td.len() implies #[trigger] crate::proc_table::same_key(td[k], ud[k]) && td[k].env
            == ud[k].env && td[k].session == ud[k].session && td[k].pid == ud[k].pid by {
            assert(td[k] == t[k] && ud[k] == u[k]);
            assert(crate::proc_table::same_key(t[k], u[k]));
        }
        lemma_find_entry_same_keys(td, ud, env, session, pid);
        assert(crate::proc_table::same_key(t[t.len() - 1], u[u.len() - 1]));
    }
}


impl DaemonState {
    /// The advertised operations.
    pub closed spec fn spec_capabilities(&self) -> Seq<Capability> {
        self.advertised_capabilities@
    }

    /// The detected platform.
    pub closed spec fn spec_platform(&self) -> Platform {
        self.platform
    }

    /// The daemon version.
    pub closed spec fn spec_version(&self) -> Seq<char> {
        self.daemon_version@
    }

    /// The machine name.
    pub closed spec fn spec_machine(&self) -> Seq<char> {
        self.machine_name@
    }

    /// The two states agree on what the daemon reports of itself and on
    /// its filesystem roots.
    pub open spec fn same_identity(&self, other: &DaemonState) -> bool {
        &&& self.spec_machine() == other.spec_machine()
        &&& self.spec_version() == other.spec_version()
        &&& self.spec_capabilities() == other.spec_capabilities()
        &&& self.spec_platform() == other.spec_platform()
        &&& self.fs_roots() == other.fs_roots()
    }
}

/// The library-level entry point kept for embedders: it takes the
/// configuration and, for now, starts nothing and succeeds (the listener is
/// the binary's).
pub fn run(_config: DaemonConfig) -> (r: Result<(), DaemonError>)
    ensures
        r is Ok,
{
    Ok(())
}

/// Assemble the daemon's state from its configuration and what the host
/// reported: the filesystem configuration (`None` when no root is
/// configured or its canonicalization failed), the machine name, the
/// version, the OS name and `/etc/os-release` (when readable).
///
/// The per-session process cap (the configured one, else the default) goes
/// to both managers; the process manager gets the configured allow list and
/// permissive flag over the default deny list; reading and listing are
/// advertised only with a filesystem backend.
pub fn build_daemon_state(
    config: &DaemonConfig,
    fs_config: Option<FilesystemConfig>,
    machine_name: String,
    daemon_version: String,
    operating_system: &str,
    os_release: Option<&str>,
) -> (d: DaemonState)
    ensures
        d.inv(),
        d.spec_env() == config.environment_id@,
        d.has_sessions(),
        d.has_processes(),
        d.grants_table() is None,
        d.session_table().len() == 0,
        d.process_table().len() == 0,
        d.session_env() == d.spec_env(),
        d.proc_env() == d.spec_env(),
        d.fs_roots() == match fs_config {
            Some(c) => Some(crate::grants::string_views(c.allowed_roots@)),
            None => None,
        },
        d.spec_capabilities() == advertised(fs_config is Some),
        d.spec_version() == daemon_version@,
        d.spec_machine() == machine_name@,
        d.session_config().idle_timeout_secs == config.session_idle_timeout_secs,
        d.session_config().max_lifetime_secs == config.session_max_lifetime_secs,
        d.session_config().max_sessions == config.max_sessions,
        d.session_config().max_processes_per_session == match config.max_processes_per_session {
            Some(n) => n,
            None => crate::session::DEFAULT_MAX_PROCESSES_PER_SESSION,
        },
        d.process_config().max_processes_per_session == d.session_config().max_processes_per_session,
        d.process_config().permissive == config.permissive_exec,
        d.process_config().allowed_executables is Some <==> config.allowed_executables is Some,
        config.allowed_executables matches Some(a) ==> d.process_config().allowed_executables->0@ == a@,
        d.process_config().max_processes == crate::process::DEFAULT_MAX_PROCESSES,
        d.process_config().max_output_bytes == crate::process::DEFAULT_MAX_OUTPUT_BYTES,
        crate::grants::string_views(d.process_config().denied_executables@) == crate::process::default_denied(),
        d.process_config().retention_secs == crate::process::DEFAULT_RETENTION_SECS,
        d.process_config().drain_timeout_secs == crate::process::DEFAULT_DRAIN_TIMEOUT_SECS,
        d.spec_platform()@ == platform_of(operating_system@, opt_str_view(os_release)),
{
    let platform = detect_platform(operating_system, os_release);
    let fs = match fs_config {
        Some(c) => Some(FilesystemBackend::new(c)),
        None => None,
    };
    let caps = advertised_capabilities(fs.is_some());
    let per_session_cap = match config.max_processes_per_session {
        Some(n) => n,
        None => crate::session::DEFAULT_MAX_PROCESSES_PER_SESSION,
    };
    let mut proc_config = ProcessConfig::default();
    match &config.allowed_executables {
        Some(allowed) => {
            proc_config.allowed_executables = Some(crate::grants::clone_strings(allowed));
        },
        None => {},
    }
    proc_config.permissive = config.permissive_exec;
    proc_config.max_processes_per_session = per_session_cap;
    let proc_manager = ProcessManager::new(config.environment_id.clone(), proc_config);
    let session_config = SessionConfig {
        idle_timeout_secs: config.session_idle_timeout_secs,
        max_lifetime_secs: config.session_max_lifetime_secs,
        max_sessions: config.max_sessions,
        max_processes_per_session: per_session_cap,
    };
    let sessions = SessionManager::new(config.environment_id.clone(), session_config);
    DaemonState {
        environment_id: config.environment_id.clone(),
        machine_name,
        daemon_version,
        advertised_capabilities: caps,
        platform,
        fs,
        proc: proc_manager,
        proc_enabled: true,
        sessions,
        sessions_enabled: true,
        authz: Authz::permissive(),
    }
}

} // verus!
