//! Persistent agent sessions.
//!
//! Sessions live in daemon memory, addressable by id across connections.
//! Expiry is lazy: a session whose idle time exceeds `idle_timeout_secs` or
//! whose age exceeds `max_lifetime_secs` is removed on its next access (or by
//! the purge that precedes creation and listing), and every removal is
//! reported so the caller can kill that session's processes.
//!
//! Ownership: a session created by a principal is bound to its fingerprint.
//! Another principal addressing it misses exactly as with an unknown id, and
//! never learns that it expired. Sessions created without an identity are
//! ownerless and addressable by anyone.

use vstd::prelude::*;
use vstd::string::*;

use crate::envvars::{
    contains_key, child_env, pair_views, path_key, has_key, sanitize_env, valid_env, valid_pair,
    validate_env_vars,
};
use crate::ids::{is_generated_id, random_id};
use crate::text::{push_decimal, push_str, str_eq};

verus! {

/// Default idle timeout: 1 hour.
pub const DEFAULT_SESSION_IDLE_TIMEOUT_SECS: u64 = 3600;

/// Default maximum session lifetime: 24 hours.
pub const DEFAULT_SESSION_MAX_LIFETIME_SECS: u64 = 86400;

/// Default cap on live sessions.
pub const DEFAULT_MAX_SESSIONS: usize = 64;

/// Default cap on processes per session (live + retained terminal).
pub const DEFAULT_MAX_PROCESSES_PER_SESSION: usize = 32;

/// Session lifecycle configuration.
#[derive(Debug, Clone, Copy)]
pub struct SessionConfig {
    /// Idle expiry in seconds (strict `>`: an idle time of exactly this is live).
    pub idle_timeout_secs: u64,
    /// Maximum lifetime in seconds since creation, regardless of activity.
    pub max_lifetime_secs: u64,
    /// Maximum live sessions.
    pub max_sessions: usize,
    /// Maximum processes per session, enforced by the process manager.
    pub max_processes_per_session: usize,
}

impl Default for SessionConfig {
    fn default() -> (c: SessionConfig)
        ensures
            c.idle_timeout_secs == DEFAULT_SESSION_IDLE_TIMEOUT_SECS,
            c.max_lifetime_secs == DEFAULT_SESSION_MAX_LIFETIME_SECS,
            c.max_sessions == DEFAULT_MAX_SESSIONS,
            c.max_processes_per_session == DEFAULT_MAX_PROCESSES_PER_SESSION,
    {
        SessionConfig {
            idle_timeout_secs: DEFAULT_SESSION_IDLE_TIMEOUT_SECS,
            max_lifetime_secs: DEFAULT_SESSION_MAX_LIFETIME_SECS,
            max_sessions: DEFAULT_MAX_SESSIONS,
            max_processes_per_session: DEFAULT_MAX_PROCESSES_PER_SESSION,
        }
    }
}

/// Errors from session operations.
#[derive(Debug)]
pub enum SessionError {
    /// The request failed validation.
    InvalidRequest(String),
    /// The request's environment does not match the managed environment.
    EnvironmentMismatch(String),
    /// No session with this id is known to the caller.
    NotFound(String),
    /// The session expired; its entry has been removed.
    Expired(String),
    /// The session table is full of live sessions.
    TooManySessions(String),
    /// An internal daemon error occurred (id generation).
    Internal(String),
}

/// One session's metadata.
#[derive(Debug, Clone)]
pub struct SessionInfo {
    /// `sess-` + 32 lowercase hex.
    pub session_id: String,
    /// The environment the session belongs to.
    pub environment_id: String,
    /// Environment-relative working directory inherited by processes.
    pub working_directory: String,
    /// Variables inherited by processes (loader keys stripped).
    pub env_vars: Vec<(String, String)>,
    /// Creation time, seconds since the Unix epoch.
    pub created_at: u64,
    /// Last activity time, seconds since the Unix epoch.
    pub last_activity: u64,
    /// Owning principal's fingerprint; `None` = ownerless.
    pub owner: Option<String>,
}

/// The content of a session.
pub struct SessionView {
    pub id: Seq<char>,
    pub env: Seq<char>,
    pub workdir: Seq<char>,
    pub vars: Seq<(Seq<char>, Seq<char>)>,
    pub created_at: nat,
    pub last_activity: nat,
    pub owner: Option<Seq<char>>,
}

/// The view of an optional string.
pub open spec fn opt_view(o: Option<String>) -> Option<Seq<char>> {
    match o {
        Some(s) => Some(s@),
        None => None,
    }
}

impl View for SessionInfo {
    type V = SessionView;

    open spec fn view(&self) -> SessionView {
        SessionView {
            id: self.session_id@,
            env: self.environment_id@,
            workdir: self.working_directory@,
            vars: pair_views(self.env_vars@),
            created_at: self.created_at as nat,
            last_activity: self.last_activity as nat,
            owner: opt_view(self.owner),
        }
    }
}

/// A request to create a session.
#[derive(Debug, Clone)]
pub struct CreateSessionRequest {
    pub environment_id: String,
    /// Working directory; `None` means the environment root `.`.
    pub working_directory: Option<String>,
    pub env_vars: Vec<(String, String)>,
}

/// What the filesystem says about a session's working directory.
#[derive(Debug, Clone)]
pub enum WorkdirStatus {
    /// No filesystem backend is configured.
    NoBackend,
    /// The path is malformed or cannot be resolved.
    Unresolvable,
    /// The path resolves outside the allowed roots.
    Escapes,
    /// The resolved path does not exist.
    Missing,
    /// The resolved path cannot be inspected (permission).
    PermissionDenied,
    /// Another error while inspecting it.
    OtherError(String),
    /// It exists but is not a directory.
    NotADirectory,
    /// It is an existing directory inside the allowed roots.
    Directory,
}

/// Who is addressing the table.
#[derive(Debug, Clone)]
pub enum Viewer {
    /// No ownership check at all.
    Unchecked,
    /// A caller with (or without) an identity; owned sessions are visible
    /// only to their owner.
    Caller(Option<String>),
}

/// A session is visible to the viewer.
pub open spec fn visible(s: SessionView, v: Viewer) -> bool {
    match v {
        Viewer::Unchecked => true,
        Viewer::Caller(c) => s.owner is None || (c is Some && s.owner == Some(c->0@)),
    }
}

/// Saturating difference.
pub open spec fn sat_sub(a: nat, b: nat) -> nat {
    if a >= b { (a - b) as nat } else { 0 }
}

/// The session is expired at `now`.
pub open spec fn is_expired(s: SessionView, c: SessionConfig, now: nat) -> bool {
    sat_sub(now, s.last_activity) > c.idle_timeout_secs || sat_sub(now, s.created_at) > c.max_lifetime_secs
}

/// Position of the session with id `id`, or -1.
pub open spec fn find_session(t: Seq<SessionView>, id: Seq<char>) -> int
    decreases t.len(),
{
    if t.len() == 0 {
        -1
    } else if t.last().id == id {
        t.len() - 1
    } else {
        find_session(t.drop_last(), id)
    }
}

/// Session ids are distinct.
pub open spec fn ids_distinct(t: Seq<SessionView>) -> bool {
    forall|i: int, j: int| 0 <= i < j < t.len() ==> #[trigger] t[i].id != #[trigger] t[j].id
}

/// The sessions that are not expired at `now`, in order.
pub open spec fn purge(t: Seq<SessionView>, c: SessionConfig, now: nat) -> Seq<SessionView>
    decreases t.len(),
{
    if t.len() == 0 {
        t
    } else if is_expired(t.last(), c, now) {
        purge(t.drop_last(), c, now)
    } else {
        purge(t.drop_last(), c, now).push(t.last())
    }
}

/// The ids of the sessions that are expired at `now`, in order.
pub open spec fn expired_ids(t: Seq<SessionView>, c: SessionConfig, now: nat) -> Seq<Seq<char>>
    decreases t.len(),
{
    if t.len() == 0 {
        Seq::empty()
    } else if is_expired(t.last(), c, now) {
        expired_ids(t.drop_last(), c, now).push(t.last().id)
    } else {
        expired_ids(t.drop_last(), c, now)
    }
}

/// The error text for an unknown (or hidden) session.
pub open spec fn session_not_found_message(id: Seq<char>) -> Seq<char> {
    "unknown session id '"@ + id + "'"@
}

/// The error text for an expired session.
pub open spec fn session_expired_message(id: Seq<char>) -> Seq<char> {
    "session '"@ + id + "' expired"@
}

/// The outcome of addressing one session.
pub enum Addressed {
    Found(SessionView),
    NotFound,
    Expired,
}

/// Addressing a session (resume / touch): unknown ids miss; an expired
/// session is removed and reported expired only to a viewer that may see it;
/// a session of another owner misses; otherwise its activity is bumped.
/// Returns the outcome, the new table, and the ids removed.
pub open spec fn touch_spec(t: Seq<SessionView>, id: Seq<char>, v: Viewer, c: SessionConfig, now: nat) -> (
    Addressed,
    Seq<SessionView>,
    Seq<Seq<char>>,
) {
    let i = find_session(t, id);
    if i < 0 {
        (Addressed::NotFound, t, Seq::empty())
    } else if is_expired(t[i], c, now) {
        (
            if visible(t[i], v) {
                Addressed::Expired
            } else {
                Addressed::NotFound
            },
            t.remove(i),
            seq![id],
        )
    } else if !visible(t[i], v) {
        (Addressed::NotFound, t, Seq::empty())
    } else {
        let s = SessionView { last_activity: now, ..t[i] };
        (Addressed::Found(s), t.update(i, s), Seq::empty())
    }
}

/// Terminating a session: like addressing it, but a found session is
/// removed instead of bumped.
pub open spec fn terminate_spec(t: Seq<SessionView>, id: Seq<char>, v: Viewer, c: SessionConfig, now: nat) -> (
    Addressed,
    Seq<SessionView>,
    Seq<Seq<char>>,
) {
    let i = find_session(t, id);
    if i < 0 {
        (Addressed::NotFound, t, Seq::empty())
    } else if is_expired(t[i], c, now) {
        (
            if visible(t[i], v) {
                Addressed::Expired
            } else {
                Addressed::NotFound
            },
            t.remove(i),
            seq![id],
        )
    } else if !visible(t[i], v) {
        (Addressed::NotFound, t, Seq::empty())
    } else {
        (Addressed::Found(t[i]), t.remove(i), Seq::empty())
    }
}

/// The sessions a listing returns: live, in the environment, visible.
pub open spec fn listed(t: Seq<SessionView>, env: Seq<char>, v: Viewer) -> Seq<SessionView>
    decreases t.len(),
{
    if t.len() == 0 {
        t
    } else if t.last().env == env && visible(t.last(), v) {
        listed(t.drop_last(), env, v).push(t.last())
    } else {
        listed(t.drop_last(), env, v)
    }
}

/// The character views of a list of strings.
pub open spec fn id_views(v: Seq<String>) -> Seq<Seq<char>> {
    Seq::new(v.len(), |i: int| v[i]@)
}

/// The views of a list of sessions.
pub open spec fn session_views(v: Seq<SessionInfo>) -> Seq<SessionView> {
    Seq::new(v.len(), |i: int| v[i]@)
}

/// The working directory a creation request asks for (`.` by default).
pub open spec fn requested_workdir(req: CreateSessionRequest) -> Seq<char> {
    match req.working_directory {
        Some(w) => w@,
        None => seq!['.'],
    }
}

impl CreateSessionRequest {
    /// The working directory the request asks for (`.` by default), as the
    /// caller examines it and the session stores it.
    pub fn working_directory_or_default(&self) -> (w: String)
        ensures
            w@ == requested_workdir(*self),
    {
        match &self.working_directory {
            Some(w) => w.clone(),
            None => {
                let d = String::from_str(".");
                proof {
                    reveal_strlit(".");
                }
                assert(d@ =~= seq!['.']);
                d
            },
        }
    }
}

/// Owns the daemon's session table.
pub struct SessionManager {
    environment_id: String,
    config: SessionConfig,
    sessions: Vec<SessionInfo>,
}

impl SessionManager {
    /// The current sessions, in creation order.
    pub closed spec fn table(&self) -> Seq<SessionView> {
        session_views(self.sessions@)
    }

    /// The managed environment.
    pub closed spec fn spec_environment(&self) -> Seq<char> {
        self.environment_id@
    }

    /// The lifecycle configuration.
    pub closed spec fn spec_config(&self) -> SessionConfig {
        self.config
    }

    /// The table is well formed: ids are distinct.
    pub open spec fn wf(&self) -> bool {
        ids_distinct(self.table())
    }

    /// Create a manager for one environment, with no sessions.
    pub fn new(environment_id: String, config: SessionConfig) -> (m: SessionManager)
        ensures
            m.wf(),
            m.table().len() == 0,
            m.spec_environment() == environment_id@,
            m.spec_config() == config,
    {
        let m = SessionManager { environment_id, config, sessions: Vec::new() };
        assert(m.table() =~= Seq::<SessionView>::empty());
        m
    }

    /// The session configuration.
    pub fn config(&self) -> (c: &SessionConfig)
        ensures
            *c == self.spec_config(),
    {
        &self.config
    }

    /// Number of sessions currently retained (expired-but-unaccessed ones
    /// count until their next access purges them).
    pub fn session_count(&self) -> (n: usize)
        ensures
            n == self.table().len(),
    {
        self.sessions.len()
    }
}


/// A copy of a session record.
pub fn copy_info(s: &SessionInfo) -> (c: SessionInfo)
    ensures
        c@ == s@,
{
    let owner = match &s.owner {
        Some(o) => Some(o.clone()),
        None => None,
    };
    SessionInfo {
        session_id: s.session_id.clone(),
        environment_id: s.environment_id.clone(),
        working_directory: s.working_directory.clone(),
        env_vars: crate::envvars::clone_vars(s.env_vars.as_slice()),
        created_at: s.created_at,
        last_activity: s.last_activity,
        owner,
    }
}

/// Whether a session is expired at `now` under `config`.
pub fn session_expired(s: &SessionInfo, config: &SessionConfig, now: u64) -> (r: bool)
    ensures
        r == is_expired(s@, *config, now as nat),
{
    let idle: u64 = if now >= s.last_activity { now - s.last_activity } else { 0 };
    let age: u64 = if now >= s.created_at { now - s.created_at } else { 0 };
    idle > config.idle_timeout_secs || age > config.max_lifetime_secs
}

/// Whether the viewer may see a session.
pub fn session_visible(s: &SessionInfo, viewer: &Viewer) -> (r: bool)
    ensures
        r == visible(s@, *viewer),
{
    match viewer {
        Viewer::Unchecked => true,
        Viewer::Caller(c) => match &s.owner {
            None => true,
            Some(o) => match c {
                Some(c) => str_eq(o.as_str(), c.as_str()),
                None => false,
            },
        },
    }
}

proof fn lemma_find_session(t: Seq<SessionView>, id: Seq<char>)
    ensures
        -1 <= find_session(t, id) < t.len(),
        find_session(t, id) >= 0 ==> t[find_session(t, id)].id == id,
        find_session(t, id) < 0 ==> forall|i: int| 0 <= i < t.len() ==> #[trigger] t[i].id != id,
    decreases t.len(),
{
    if t.len() > 0 {
        lemma_find_session(t.drop_last(), id);
        if find_session(t, id) < 0 {
            assert forall|i: int| 0 <= i < t.len() implies #[trigger] t[i].id != id by {
                if i < t.len() - 1 {
                    assert(t.drop_last()[i] == t[i]);
                }
            }
        }
    }
}

proof fn lemma_remove_distinct(t: Seq<SessionView>, i: int)
    requires
        ids_distinct(t),
        0 <= i < t.len(),
    ensures
        ids_distinct(t.remove(i)),
        forall|k: int| 0 <= k < t.remove(i).len() ==> #[trigger] t.remove(i)[k].id != t[i].id,
{
    let u = t.remove(i);
    assert forall|a: int, b: int| 0 <= a < b < u.len() implies #[trigger] u[a].id != #[trigger] u[b].id by {
        let a2 = if a < i { a } else { a + 1 };
        let b2 = if b < i { b } else { b + 1 };
        assert(u[a] == t[a2] && u[b] == t[b2]);
    }
    assert forall|k: int| 0 <= k < u.len() implies #[trigger] u[k].id != t[i].id by {
        let k2 = if k < i { k } else { k + 1 };
        assert(u[k] == t[k2]);
    }
}

proof fn lemma_purge_props(t: Seq<SessionView>, c: SessionConfig, now: nat)
    requires
        ids_distinct(t),
    ensures
        ids_distinct(purge(t, c, now)),
        purge(t, c, now).len() <= t.len(),
        forall|k: int| 0 <= k < purge(t, c, now).len() ==> !is_expired(#[trigger] purge(t, c, now)[k], c, now),
        forall|k: int|
            0 <= k < purge(t, c, now).len() ==> exists|j: int| 0 <= j < t.len() && t[j] == #[trigger] purge(t, c, now)[k],
    decreases t.len(),
{
    if t.len() > 0 {
        let d = t.drop_last();
        assert forall|a: int, b: int| 0 <= a < b < d.len() implies #[trigger] d[a].id != #[trigger] d[b].id by {
            assert(d[a] == t[a] && d[b] == t[b]);
        }
        lemma_purge_props(d, c, now);
        let p = purge(d, c, now);
        if !is_expired(t.last(), c, now) {
            let q = p.push(t.last());
            assert forall|a: int, b: int| 0 <= a < b < q.len() implies #[trigger] q[a].id != #[trigger] q[b].id by {
                if b == q.len() - 1 {
                    let j = choose|j: int| 0 <= j < d.len() && d[j] == #[trigger] p[a];
                    assert(t[j] == d[j]);
                    assert(t[j].id != t[t.len() - 1].id);
                }
            }
            assert forall|k: int| 0 <= k < q.len() implies exists|j: int| 0 <= j < t.len() && t[j] == #[trigger] q[k] by {
                if k == q.len() - 1 {
                    assert(t[t.len() - 1] == q[k]);
                } else {
                    let j = choose|j: int| 0 <= j < d.len() && d[j] == #[trigger] p[k];
                    assert(t[j] == q[k]);
                }
            }
        } else {
            assert forall|k: int| 0 <= k < p.len() implies exists|j: int| 0 <= j < t.len() && t[j] == #[trigger] p[k] by {
                let j = choose|j: int| 0 <= j < d.len() && d[j] == #[trigger] p[k];
                assert(t[j] == p[k]);
            }
        }
    }
}

impl SessionManager {
    fn find_index(&self, session_id: &str) -> (r: Option<usize>)
        ensures
            match r {
                Some(i) => find_session(self.table(), session_id@) == i as int,
                None => find_session(self.table(), session_id@) < 0,
            },
    {
        let ghost full = self.table();
        let mut i: usize = self.sessions.len();
        assert(full.subrange(0, i as int) =~= full);
        while i > 0
            invariant
                i <= self.sessions@.len(),
                full == self.table(),
                find_session(full, session_id@) == find_session(full.subrange(0, i as int), session_id@),
            decreases i,
        {
            let ghost sub = full.subrange(0, i as int);
            if str_eq(self.sessions[i - 1].session_id.as_str(), session_id) {
                assert(sub.last() == full[i - 1]);
                return Some(i - 1);
            }
            assert(sub.drop_last() =~= full.subrange(0, i - 1));
            i = i - 1;
        }
        None
    }

    /// Remove every expired session; return the removed ids in order.
    fn purge_expired(&mut self, now: u64) -> (purged: Vec<String>)
        requires
            old(self).wf(),
        ensures
            final(self).wf(),
            final(self).table() == purge(old(self).table(), old(self).spec_config(), now as nat),
            id_views(purged@) == expired_ids(old(self).table(), old(self).spec_config(), now as nat),
            final(self).spec_environment() == old(self).spec_environment(),
            final(self).spec_config() == old(self).spec_config(),
    {
        let ghost t = self.table();
        let ghost c = self.config;
        let mut kept: Vec<SessionInfo> = Vec::new();
        let mut purged: Vec<String> = Vec::new();
        let mut i: usize = 0;
        let n = self.sessions.len();
        while i < n
            invariant
                n == self.sessions@.len(),
                t == self.table(),
                c == self.config,
                i <= n,
                session_views(kept@) == purge(t.subrange(0, i as int), c, now as nat),
                id_views(purged@) == expired_ids(t.subrange(0, i as int), c, now as nat),
            decreases n - i,
        {
            let ghost sub = t.subrange(0, i + 1);
            assert(sub.drop_last() =~= t.subrange(0, i as int));
            assert(sub.last() == self.sessions@[i as int]@);
            if session_expired(&self.sessions[i], &self.config, now) {
                let ghost before = purged@;
                purged.push(self.sessions[i].session_id.clone());
                assert(id_views(purged@) =~= id_views(before).push(sub.last().id));
            } else {
                let ghost before = kept@;
                kept.push(copy_info(&self.sessions[i]));
                assert(session_views(kept@) =~= session_views(before).push(sub.last()));
            }
            i = i + 1;
        }
        assert(t.subrange(0, n as int) =~= t);
        proof {
            lemma_purge_props(t, c, now as nat);
        }
        self.sessions = kept;
        purged
    }

    fn not_found_error(session_id: &str) -> (e: SessionError)
        ensures
            e matches SessionError::NotFound(m) && m@ == "unknown session id '"@ + session_id@ + "'"@,
    {
        let mut m = String::from_str("unknown session id '");
        push_str(&mut m, session_id);
        push_str(&mut m, "'");
        SessionError::NotFound(m)
    }

    fn expired_error(session_id: &str) -> (e: SessionError)
        ensures
            e matches SessionError::Expired(m) && m@ == "session '"@ + session_id@ + "' expired"@,
    {
        let mut m = String::from_str("session '");
        push_str(&mut m, session_id);
        push_str(&mut m, "' expired");
        SessionError::Expired(m)
    }

    /// Address a session as `viewer` — the resume operation every
    /// session-scoped request performs.
    ///
    /// Unknown ids and other owners' sessions yield `NotFound`. An expired
    /// session is removed, reported in the returned ids (so its processes
    /// can be killed), and yields `Expired` only to a viewer that may see
    /// it (`NotFound` otherwise). A live visible session has its activity
    /// bumped to `now` and is returned.
    pub fn touch_owned(&mut self, session_id: &str, viewer: &Viewer, now: u64) -> (r: (
        Result<SessionInfo, SessionError>,
        Vec<String>,
    ))
        requires
            old(self).wf(),
        ensures
            final(self).wf(),
            final(self).spec_environment() == old(self).spec_environment(),
            final(self).spec_config() == old(self).spec_config(),
            final(self).table() == touch_spec(
                old(self).table(),
                session_id@,
                *viewer,
                old(self).spec_config(),
                now as nat,
            ).1,
            id_views(r.1@) == touch_spec(
                old(self).table(),
                session_id@,
                *viewer,
                old(self).spec_config(),
                now as nat,
            ).2,
            match touch_spec(old(self).table(), session_id@, *viewer, old(self).spec_config(), now as nat).0 {
                Addressed::Found(s) => r.0 matches Ok(info) && info@ == s,
                Addressed::NotFound => r.0 matches Err(SessionError::NotFound(m)) && m@ == session_not_found_message(session_id@),
                Addressed::Expired => r.0 matches Err(SessionError::Expired(m)) && m@ == session_expired_message(session_id@),
            },
    {
        let ghost t = self.table();
        proof {
            lemma_find_session(t, session_id@);
        }
        let idx = self.find_index(session_id);
        match idx {
            None => (Err(Self::not_found_error(session_id)), Vec::new()),
            Some(i) => {
                if session_expired(&self.sessions[i], &self.config, now) {
                    let vis = session_visible(&self.sessions[i], viewer);
                    let removed = self.sessions.remove(i);
                    proof {
                        assert(self.table() =~= t.remove(i as int));
                        lemma_remove_distinct(t, i as int);
                    }
                    let mut purged: Vec<String> = Vec::new();
                    purged.push(removed.session_id);
                    assert(id_views(purged@) =~= seq![session_id@]);
                    if vis {
                        (Err(Self::expired_error(session_id)), purged)
                    } else {
                        (Err(Self::not_found_error(session_id)), purged)
                    }
                } else if !session_visible(&self.sessions[i], viewer) {
                    (Err(Self::not_found_error(session_id)), Vec::new())
                } else {
                    let mut info = copy_info(&self.sessions[i]);
                    info.last_activity = now;
                    let out = copy_info(&info);
                    self.sessions.set(i, info);
                    proof {
                        let s = SessionView { last_activity: now as nat, ..t[i as int] };
                        assert(self.table() =~= t.update(i as int, s));
                        assert forall|a: int, b: int| 0 <= a < b < self.table().len() implies #[trigger] self.table()[a].id
                            != #[trigger] self.table()[b].id by {
                            assert(self.table()[a].id == t[a].id);
                            assert(self.table()[b].id == t[b].id);
                        }
                    }
                    (Ok(out), Vec::new())
                }
            },
        }
    }

    /// Fetch a session by id without ownership checks (resume): expired
    /// entries are removed and reported `Expired`, unknown ids `NotFound`,
    /// live ones have their activity bumped to `now`.
    pub fn get(&mut self, session_id: &str, now: u64) -> (r: Result<SessionInfo, SessionError>)
        requires
            old(self).wf(),
        ensures
            final(self).wf(),
            final(self).spec_environment() == old(self).spec_environment(),
            final(self).spec_config() == old(self).spec_config(),
            final(self).table() == touch_spec(
                old(self).table(),
                session_id@,
                Viewer::Unchecked,
                old(self).spec_config(),
                now as nat,
            ).1,
            match touch_spec(old(self).table(), session_id@, Viewer::Unchecked, old(self).spec_config(), now as nat).0 {
                Addressed::Found(s) => r matches Ok(info) && info@ == s,
                Addressed::NotFound => r matches Err(SessionError::NotFound(_)),
                Addressed::Expired => r matches Err(SessionError::Expired(_)),
            },
    {
        let (r, _purged) = self.touch_owned(session_id, &Viewer::Unchecked, now);
        r
    }

    /// Alias of [`SessionManager::get`] used by session-scoped process
    /// operations (every one of them bumps activity).
    pub fn touch(&mut self, session_id: &str, now: u64) -> (r: Result<SessionInfo, SessionError>)
        requires
            old(self).wf(),
        ensures
            final(self).wf(),
            final(self).spec_environment() == old(self).spec_environment(),
            final(self).spec_config() == old(self).spec_config(),
            final(self).table() == touch_spec(
                old(self).table(),
                session_id@,
                Viewer::Unchecked,
                old(self).spec_config(),
                now as nat,
            ).1,
            match touch_spec(old(self).table(), session_id@, Viewer::Unchecked, old(self).spec_config(), now as nat).0 {
                Addressed::Found(s) => r matches Ok(info) && info@ == s,
                Addressed::NotFound => r matches Err(SessionError::NotFound(_)),
                Addressed::Expired => r matches Err(SessionError::Expired(_)),
            },
    {
        self.get(session_id, now)
    }
}


/// Strip dynamic-loader keys from the variables a session stores (the spawn
/// path strips the merged variables again).
pub fn sanitize_stored_env(env_vars: &[(String, String)]) -> (out: Vec<(String, String)>)
    ensures
        pair_views(out@) == child_env(pair_views(env_vars@)),
{
    sanitize_env(env_vars)
}

/// `sess-`, the prefix of every session id.
pub open spec fn session_prefix() -> Seq<char> {
    seq!['s', 'e', 's', 's', '-']
}

/// The request passes the checks made before the table is consulted: its
/// variables are acceptable, it names the managed environment, and its
/// working directory is an existing directory inside the allowed roots.
pub open spec fn create_admissible(req: CreateSessionRequest, env: Seq<char>, workdir: WorkdirStatus) -> bool {
    &&& valid_env(pair_views(req.env_vars@))
    &&& req.environment_id@ == env
    &&& workdir is Directory
}

/// The session a successful creation stores and returns.
pub open spec fn created_view(req: CreateSessionRequest, id: Seq<char>, owner: Option<Seq<char>>, now: nat) -> SessionView {
    SessionView {
        id,
        env: req.environment_id@,
        workdir: requested_workdir(req),
        vars: child_env(pair_views(req.env_vars@)),
        created_at: now,
        last_activity: now,
        owner,
    }
}

impl SessionManager {
    /// Draw a session id not yet in the table (up to 8 attempts).
    fn fresh_session_id(&self) -> (r: Result<String, SessionError>)
        ensures
            r matches Ok(s) ==> is_generated_id(s@, session_prefix()) && find_session(self.table(), s@) < 0,
            r matches Err(e) ==> e is Internal,
    {
        let mut attempt: usize = 0;
        while attempt < 8
            decreases 8 - attempt,
        {
            let prefix = "sess-";
            proof {
                reveal_strlit("sess-");
            }
            assert(prefix@ == session_prefix());
            match random_id(prefix) {
                Ok(candidate) => {
                    if self.find_index(candidate.as_str()).is_none() {
                        return Ok(candidate);
                    }
                },
                Err(e) => {
                    let mut m = String::from_str("failed to generate session id: ");
                    push_str(&mut m, e.as_str());
                    return Err(SessionError::Internal(m));
                },
            }
            attempt = attempt + 1;
        }
        Err(SessionError::Internal(String::from_str("repeated session id collisions; refusing creation")))
    }

    /// Create a session for `owner` (`None`: ownerless).
    ///
    /// `workdir` is what the filesystem backend reported for the requested
    /// working directory (`.` when the request names none). Checks, in
    /// order: the variables (keys non-empty, no `=` or NUL, never `PATH`;
    /// values without NUL), the environment, the working directory. Then
    /// expired sessions are purged; if the table is still full the creation
    /// is refused, else a fresh `sess-` id is drawn and the session stored
    /// with its loader keys stripped, created and active at `now`.
    /// Returns the session and the ids the purge removed.
    pub fn create_owned(
        &mut self,
        req: &CreateSessionRequest,
        workdir: &WorkdirStatus,
        owner: Option<String>,
        now: u64,
    ) -> (r: Result<(SessionInfo, Vec<String>), SessionError>)
        requires
            old(self).wf(),
        ensures
            final(self).wf(),
            final(self).spec_environment() == old(self).spec_environment(),
            final(self).spec_config() == old(self).spec_config(),
            r is Ok ==> final(self).table().len() <= old(self).spec_config().max_sessions,
            !valid_env(pair_views(req.env_vars@)) ==> (r matches Err(SessionError::InvalidRequest(_))
                && final(self).table() == old(self).table()),
            valid_env(pair_views(req.env_vars@)) && req.environment_id@ != old(self).spec_environment() ==> (
            r matches Err(SessionError::EnvironmentMismatch(_)) && final(self).table() == old(self).table()),
            valid_env(pair_views(req.env_vars@)) && req.environment_id@ == old(self).spec_environment() && !(
            workdir is Directory) ==> (r matches Err(SessionError::InvalidRequest(_)) && final(self).table() == old(
                self,
            ).table()),
            create_admissible(*req, old(self).spec_environment(), *workdir) ==> {
                let c = old(self).spec_config();
                let p = purge(old(self).table(), c, now as nat);
                if p.len() >= c.max_sessions {
                    r matches Err(SessionError::TooManySessions(_)) && final(self).table() == p
                } else {
                    ||| r matches Err(SessionError::Internal(_)) && final(self).table() == p
                    ||| r matches Ok((info, purged)) && {
                        &&& info@ == created_view(*req, info@.id, opt_view(owner), now as nat)
                        &&& is_generated_id(info@.id, session_prefix())
                        &&& find_session(p, info@.id) < 0
                        &&& final(self).table() == p.push(info@)
                        &&& id_views(purged@) == expired_ids(old(self).table(), c, now as nat)
                    }
                }
            },
    {
        if validate_env_vars(req.env_vars.as_slice()).is_err() {
            let m = match validate_env_vars(req.env_vars.as_slice()) {
                Err(m) => m,
                Ok(()) => String::new(),
            };
            let mut msg = String::from_str("invalid request: ");
            push_str(&mut msg, m.as_str());
            return Err(SessionError::InvalidRequest(msg));
        }
        if !str_eq(req.environment_id.as_str(), self.environment_id.as_str()) {
            let mut m = String::from_str("requested environment '");
            push_str(&mut m, req.environment_id.as_str());
            push_str(&mut m, "' does not match managed environment '");
            push_str(&mut m, self.environment_id.as_str());
            push_str(&mut m, "'");
            return Err(SessionError::EnvironmentMismatch(m));
        }
        match workdir {
            WorkdirStatus::Directory => {},
            WorkdirStatus::NoBackend => {
                return Err(SessionError::InvalidRequest(String::from_str("filesystem backend not configured")));
            },
            WorkdirStatus::Unresolvable | WorkdirStatus::Escapes => {
                return Err(SessionError::InvalidRequest(String::from_str("invalid working_directory")));
            },
            WorkdirStatus::Missing => {
                return Err(SessionError::InvalidRequest(String::from_str("working_directory does not exist")));
            },
            WorkdirStatus::PermissionDenied => {
                return Err(SessionError::InvalidRequest(String::from_str("working_directory permission denied")));
            },
            WorkdirStatus::OtherError(e) => {
                let mut m = String::from_str("working_directory error: ");
                push_str(&mut m, e.as_str());
                return Err(SessionError::InvalidRequest(m));
            },
            WorkdirStatus::NotADirectory => {
                return Err(SessionError::InvalidRequest(String::from_str("working_directory is not a directory")));
            },
        }
        let path = "PATH";
        proof {
            reveal_strlit("PATH");
        }
        if contains_key(req.env_vars.as_slice(), path) {
            proof {
                let pv = pair_views(req.env_vars@);
                let i = choose|i: int| 0 <= i < pv.len() && #[trigger] pv[i].0 == path@;
                assert(valid_pair(pv[i]));
                assert(path@ =~= path_key());
            }
            return Err(SessionError::InvalidRequest(String::from_str(
                "env var PATH must not be supplied: programs resolve against the daemon's trusted PATH",
            )));
        }
        let purged = self.purge_expired(now);
        if self.sessions.len() >= self.config.max_sessions {
            let mut m = String::from_str("session table full (");
            push_decimal(&mut m, self.sessions.len() as u64);
            push_str(&mut m, " live sessions): refusing creation");
            return Err(SessionError::TooManySessions(m));
        }
        let id = match self.fresh_session_id() {
            Ok(id) => id,
            Err(e) => {
                return Err(e);
            },
        };
        let workdir_rel = req.working_directory_or_default();
        let info = SessionInfo {
            session_id: id,
            environment_id: req.environment_id.clone(),
            working_directory: workdir_rel,
            env_vars: sanitize_stored_env(req.env_vars.as_slice()),
            created_at: now,
            last_activity: now,
            owner,
        };
        let ghost p = self.table();
        let out = copy_info(&info);
        self.sessions.push(info);
        proof {
            assert(self.table() =~= p.push(out@));
            lemma_find_session(p, out@.id);
            assert forall|a: int, b: int| 0 <= a < b < self.table().len() implies #[trigger] self.table()[a].id
                != #[trigger] self.table()[b].id by {
                if b == p.len() {
                    assert(self.table()[a] == p[a]);
                } else {
                    assert(self.table()[a] == p[a] && self.table()[b] == p[b]);
                }
            }
        }
        Ok((out, purged))
    }

    /// Create an ownerless session (see [`SessionManager::create_owned`]).
    pub fn create(&mut self, req: &CreateSessionRequest, workdir: &WorkdirStatus, now: u64) -> (r: Result<
        (SessionInfo, Vec<String>),
        SessionError,
    >)
        requires
            old(self).wf(),
        ensures
            final(self).wf(),
            final(self).spec_environment() == old(self).spec_environment(),
            final(self).spec_config() == old(self).spec_config(),
            !valid_env(pair_views(req.env_vars@)) ==> (r matches Err(SessionError::InvalidRequest(_))
                && final(self).table() == old(self).table()),
            valid_env(pair_views(req.env_vars@)) && req.environment_id@ != old(self).spec_environment() ==> (
            r matches Err(SessionError::EnvironmentMismatch(_)) && final(self).table() == old(self).table()),
            valid_env(pair_views(req.env_vars@)) && req.environment_id@ == old(self).spec_environment() && !(
            workdir is Directory) ==> (r matches Err(SessionError::InvalidRequest(_)) && final(self).table() == old(
                self,
            ).table()),
            create_admissible(*req, old(self).spec_environment(), *workdir) ==> {
                let c = old(self).spec_config();
                let p = purge(old(self).table(), c, now as nat);
                if p.len() >= c.max_sessions {
                    r matches Err(SessionError::TooManySessions(_)) && final(self).table() == p
                } else {
                    ||| r matches Err(SessionError::Internal(_)) && final(self).table() == p
                    ||| r matches Ok((info, purged)) && {
                        &&& info@ == created_view(*req, info@.id, None, now as nat)
                        &&& is_generated_id(info@.id, session_prefix())
                        &&& find_session(p, info@.id) < 0
                        &&& final(self).table() == p.push(info@)
                        &&& id_views(purged@) == expired_ids(old(self).table(), c, now as nat)
                    }
                }
            },
    {
        self.create_owned(req, workdir, None, now)
    }

    /// List the sessions of `environment_id` that `viewer` may see.
    ///
    /// Expired sessions are purged first; returns the live visible sessions
    /// of that environment in creation order, and the purged ids. Nothing
    /// is bumped.
    pub fn list_owned(&mut self, environment_id: &str, viewer: &Viewer, now: u64) -> (r: (
        Vec<SessionInfo>,
        Vec<String>,
    ))
        requires
            old(self).wf(),
        ensures
            final(self).wf(),
            final(self).spec_environment() == old(self).spec_environment(),
            final(self).spec_config() == old(self).spec_config(),
            final(self).table() == purge(old(self).table(), old(self).spec_config(), now as nat),
            session_views(r.0@) == listed(final(self).table(), environment_id@, *viewer),
            id_views(r.1@) == expired_ids(old(self).table(), old(self).spec_config(), now as nat),
    {
        let purged = self.purge_expired(now);
        let ghost t = self.table();
        let mut out: Vec<SessionInfo> = Vec::new();
        let mut i: usize = 0;
        while i < self.sessions.len()
            invariant
                t == self.table(),
                i <= self.sessions@.len(),
                session_views(out@) == listed(t.subrange(0, i as int), environment_id@, *viewer),
            decreases self.sessions@.len() - i,
        {
            let ghost sub = t.subrange(0, i + 1);
            assert(sub.drop_last() =~= t.subrange(0, i as int));
            assert(sub.last() == self.sessions@[i as int]@);
            if str_eq(self.sessions[i].environment_id.as_str(), environment_id) && session_visible(
                &self.sessions[i],
                viewer,
            ) {
                let ghost before = out@;
                out.push(copy_info(&self.sessions[i]));
                assert(session_views(out@) =~= session_views(before).push(sub.last()));
            }
            i = i + 1;
        }
        assert(t.subrange(0, t.len() as int) =~= t);
        (out, purged)
    }

    /// List every live session of `environment_id`, without ownership
    /// checks (see [`SessionManager::list_owned`]).
    pub fn list(&mut self, environment_id: &str, now: u64) -> (r: (Vec<SessionInfo>, Vec<String>))
        requires
            old(self).wf(),
        ensures
            final(self).wf(),
            final(self).spec_environment() == old(self).spec_environment(),
            final(self).spec_config() == old(self).spec_config(),
            final(self).table() == purge(old(self).table(), old(self).spec_config(), now as nat),
            session_views(r.0@) == listed(final(self).table(), environment_id@, Viewer::Unchecked),
            id_views(r.1@) == expired_ids(old(self).table(), old(self).spec_config(), now as nat),
    {
        self.list_owned(environment_id, &Viewer::Unchecked, now)
    }

    /// Remove a session as `viewer`, without touching processes (the
    /// caller kills them first).
    ///
    /// Unknown ids and other owners' sessions yield `NotFound`; an expired
    /// session is removed, reported in the returned ids, and yields
    /// `Expired` to a viewer that may see it (`NotFound` otherwise).
    pub fn terminate_owned(&mut self, session_id: &str, viewer: &Viewer, now: u64) -> (r: (
        Result<(), SessionError>,
        Vec<String>,
    ))
        requires
            old(self).wf(),
        ensures
            final(self).wf(),
            final(self).spec_environment() == old(self).spec_environment(),
            final(self).spec_config() == old(self).spec_config(),
            final(self).table() == terminate_spec(
                old(self).table(),
                session_id@,
                *viewer,
                old(self).spec_config(),
                now as nat,
            ).1,
            id_views(r.1@) == terminate_spec(
                old(self).table(),
                session_id@,
                *viewer,
                old(self).spec_config(),
                now as nat,
            ).2,
            match terminate_spec(old(self).table(), session_id@, *viewer, old(self).spec_config(), now as nat).0 {
                Addressed::Found(_) => r.0 is Ok,
                Addressed::NotFound => r.0 matches Err(SessionError::NotFound(m)) && m@ == session_not_found_message(session_id@),
                Addressed::Expired => r.0 matches Err(SessionError::Expired(m)) && m@ == session_expired_message(session_id@),
            },
    {
        let ghost t = self.table();
        proof {
            lemma_find_session(t, session_id@);
        }
        match self.find_index(session_id) {
            None => (Err(Self::not_found_error(session_id)), Vec::new()),
            Some(i) => {
                let expired = session_expired(&self.sessions[i], &self.config, now);
                let vis = session_visible(&self.sessions[i], viewer);
                if !expired && !vis {
                    return (Err(Self::not_found_error(session_id)), Vec::new());
                }
                let removed = self.sessions.remove(i);
                proof {
                    assert(self.table() =~= t.remove(i as int));
                    lemma_remove_distinct(t, i as int);
                }
                if expired {
                    let mut purged: Vec<String> = Vec::new();
                    purged.push(removed.session_id);
                    assert(id_views(purged@) =~= seq![session_id@]);
                    if vis {
                        (Err(Self::expired_error(session_id)), purged)
                    } else {
                        (Err(Self::not_found_error(session_id)), purged)
                    }
                } else {
                    let purged: Vec<String> = Vec::new();
                    assert(id_views(purged@) =~= Seq::<Seq<char>>::empty());
                    (Ok(()), purged)
                }
            },
        }
    }

    /// Remove a session without ownership checks (see
    /// [`SessionManager::terminate_owned`]).
    pub fn terminate(&mut self, session_id: &str, now: u64) -> (r: Result<(), SessionError>)
        requires
            old(self).wf(),
        ensures
            final(self).wf(),
            final(self).spec_environment() == old(self).spec_environment(),
            final(self).spec_config() == old(self).spec_config(),
            final(self).table() == terminate_spec(
                old(self).table(),
                session_id@,
                Viewer::Unchecked,
                old(self).spec_config(),
                now as nat,
            ).1,
            match terminate_spec(old(self).table(), session_id@, Viewer::Unchecked, old(self).spec_config(), now as nat).0 {
                Addressed::Found(_) => r is Ok,
                Addressed::NotFound => r matches Err(SessionError::NotFound(_)),
                Addressed::Expired => r matches Err(SessionError::Expired(_)),
            },
    {
        let (r, _purged) = self.terminate_owned(session_id, &Viewer::Unchecked, now);
        r
    }
}


/// A session just stored under a fresh id resumes: addressing it before it
/// expires, as a viewer that may see it, finds exactly what was stored, with
/// its activity bumped.
pub proof fn law_created_session_resumes(t: Seq<SessionView>, s: SessionView, v: Viewer, c: SessionConfig, now: nat)
    requires
        find_session(t, s.id) < 0,
        visible(s, v),
        !is_expired(s, c, now),
    ensures
        touch_spec(t.push(s), s.id, v, c, now).0 == Addressed::Found(SessionView { last_activity: now, ..s }),
        touch_spec(t.push(s), s.id, v, c, now).1 == t.push(SessionView { last_activity: now, ..s }),
{
    let u = t.push(s);
    assert(u.drop_last() =~= t);
    assert(find_session(u, s.id) == t.len());
}

/// Removing the session found under an id leaves no session with that id.
pub proof fn lemma_removed_id_gone(t: Seq<SessionView>, id: Seq<char>)
    requires
        ids_distinct(t),
        find_session(t, id) >= 0,
    ensures
        find_session(t.remove(find_session(t, id)), id) < 0,
{
    lemma_find_session(t, id);
    let i = find_session(t, id);
    lemma_remove_distinct(t, i);
    let u = t.remove(i);
    lemma_find_session(u, id);
    if find_session(u, id) >= 0 {
        assert(u[find_session(u, id)].id != t[i].id);
    }
}

/// Tables with the same ids at the same positions find an id at the same
/// position.
proof fn lemma_find_same_ids(t: Seq<SessionView>, u: Seq<SessionView>, id: Seq<char>)
    requires
        t.len() == u.len(),
        forall|k: int| 0 <= k < t.len() ==> #[trigger] t[k].id == u[k].id,
    ensures
        find_session(t, id) == find_session(u, id),
    decreases t.len(),
{
    if t.len() > 0 {
        assert forall|k: int| 0 <= k < t.drop_last().len() implies #[trigger] t.drop_last()[k].id
            == u.drop_last()[k].id by {
            assert(t.drop_last()[k] == t[k]);
            assert(u.drop_last()[k] == u[k]);
        }
        lemma_find_same_ids(t.drop_last(), u.drop_last(), id);
    }
}

/// The session an address finds carries the id it was addressed by.
pub proof fn lemma_found_session_has_id(t: Seq<SessionView>, id: Seq<char>, v: Viewer, c: SessionConfig, now: nat)
    requires
        touch_spec(t, id, v, c, now).0 is Found,
    ensures
        touch_spec(t, id, v, c, now).0->0.id == id,
{
    lemma_find_session(t, id);
}

/// Terminating a session right after a successful address of it finds the
/// bumped session and removes it, purging nothing.
pub proof fn lemma_touch_then_terminate(t: Seq<SessionView>, id: Seq<char>, v: Viewer, c: SessionConfig, now: nat)
    requires
        touch_spec(t, id, v, c, now).0 is Found,
    ensures
        ({
            let t2 = touch_spec(t, id, v, c, now).1;
            &&& touch_spec(t, id, v, c, now).2 == Seq::<Seq<char>>::empty()
            &&& find_session(t2, id) == find_session(t, id)
            &&& terminate_spec(t2, id, v, c, now) == (
                touch_spec(t, id, v, c, now).0,
                t2.remove(find_session(t, id)),
                Seq::<Seq<char>>::empty(),
            )
        }),
{
    lemma_find_session(t, id);
    let i = find_session(t, id);
    let t2 = touch_spec(t, id, v, c, now).1;
    assert(t2 == t.update(i, SessionView { last_activity: now, ..t[i] }));
    assert forall|k: int| 0 <= k < t.len() implies #[trigger] t[k].id == t2[k].id by {}
    lemma_find_same_ids(t, t2, id);
    assert(!is_expired(t2[i], c, now));
    assert(visible(t2[i], v));
}

/// Once terminating a session took effect (it was found, or it had expired),
/// the id misses forever after: any later address of it is `NotFound`.
pub proof fn law_terminated_session_is_gone(
    t: Seq<SessionView>,
    id: Seq<char>,
    v: Viewer,
    v2: Viewer,
    c: SessionConfig,
    now: nat,
    now2: nat,
)
    requires
        ids_distinct(t),
        !(terminate_spec(t, id, v, c, now).0 is NotFound),
    ensures
        touch_spec(terminate_spec(t, id, v, c, now).1, id, v2, c, now2).0 is NotFound,
        terminate_spec(terminate_spec(t, id, v, c, now).1, id, v2, c, now2).0 is NotFound,
{
    lemma_removed_id_gone(t, id);
}

/// Expiry is final: after an address reports `Expired`, the entry is gone
/// and every later address of the id is `NotFound`.
pub proof fn law_expired_session_is_gone(
    t: Seq<SessionView>,
    id: Seq<char>,
    v: Viewer,
    v2: Viewer,
    c: SessionConfig,
    now: nat,
    now2: nat,
)
    requires
        ids_distinct(t),
        touch_spec(t, id, v, c, now).0 is Expired,
    ensures
        touch_spec(touch_spec(t, id, v, c, now).1, id, v2, c, now2).0 is NotFound,
        touch_spec(t, id, v, c, now).2 == seq![id],
{
    lemma_removed_id_gone(t, id);
}

/// A listing never shows a session its viewer may not see: whatever the
/// environment and the time, no listed session carries the id of a hidden
/// one.
pub proof fn law_listing_hides_sessions_of_others(
    t: Seq<SessionView>,
    id: Seq<char>,
    v: Viewer,
    env: Seq<char>,
    c: SessionConfig,
    now: nat,
)
    requires
        ids_distinct(t),
        find_session(t, id) >= 0,
        !visible(t[find_session(t, id)], v),
    ensures
        forall|k: int| 0 <= k < listed(purge(t, c, now), env, v).len() ==> (#[trigger] listed(
            purge(t, c, now),
            env,
            v,
        )[k]).id != id,
{
    lemma_find_session(t, id);
    lemma_purge_props(t, c, now);
    let p = purge(t, c, now);
    lemma_listed_props(p, env, v);
    let i = find_session(t, id);
    assert forall|k: int| 0 <= k < listed(p, env, v).len() implies (#[trigger] listed(p, env, v)[k]).id != id by {
        let s = listed(p, env, v)[k];
        assert(p.contains(s));
        let a = choose|a: int| 0 <= a < p.len() && p[a] == s;
        let j = choose|j: int| 0 <= j < t.len() && t[j] == #[trigger] p[a];
        if s.id == id {
            if j != i {
                if j < i {
                    assert(t[j].id != t[i].id);
                } else {
                    assert(t[i].id != t[j].id);
                }
            }
            assert(!visible(s, v));
        }
    }
}

/// Only a viewer that may see a session learns anything of it: to any other
/// viewer, addressing or terminating it answers `NotFound` (never
/// `Expired`), exactly as for an id that never existed, and a live session
/// is left untouched.
pub proof fn law_hidden_sessions_answer_not_found(
    t: Seq<SessionView>,
    id: Seq<char>,
    v: Viewer,
    c: SessionConfig,
    now: nat,
)
    requires
        find_session(t, id) >= 0,
        !visible(t[find_session(t, id)], v),
    ensures
        touch_spec(t, id, v, c, now).0 is NotFound,
        terminate_spec(t, id, v, c, now).0 is NotFound,
        !is_expired(t[find_session(t, id)], c, now) ==> touch_spec(t, id, v, c, now).1 == t
            && terminate_spec(t, id, v, c, now).1 == t,
{
}

/// Expired sessions are never resumed: a found session was live and visible.
pub proof fn law_found_sessions_are_live(t: Seq<SessionView>, id: Seq<char>, v: Viewer, c: SessionConfig, now: nat)
    requires
        touch_spec(t, id, v, c, now).0 is Found,
    ensures
        find_session(t, id) >= 0,
        !is_expired(t[find_session(t, id)], c, now),
        visible(t[find_session(t, id)], v),
        touch_spec(t, id, v, c, now).0 == Addressed::Found(
            SessionView { last_activity: now, ..t[find_session(t, id)] },
        ),
{
}

proof fn lemma_listed_props(t: Seq<SessionView>, env: Seq<char>, v: Viewer)
    ensures
        forall|k: int|
            0 <= k < listed(t, env, v).len() ==> {
                &&& (#[trigger] listed(t, env, v)[k]).env == env
                &&& visible(listed(t, env, v)[k], v)
                &&& t.contains(listed(t, env, v)[k])
            },
    decreases t.len(),
{
    if t.len() > 0 {
        lemma_listed_props(t.drop_last(), env, v);
        let d = t.drop_last();
        assert forall|k: int| 0 <= k < listed(t, env, v).len() implies t.contains(
            #[trigger] listed(t, env, v)[k],
        ) by {
            if k < listed(d, env, v).len() {
                let x = listed(d, env, v)[k];
                assert(listed(t, env, v)[k] == x);
                let j = choose|j: int| 0 <= j < d.len() && d[j] == x;
                assert(t[j] == x);
            } else {
                assert(t[t.len() - 1] == listed(t, env, v)[k]);
            }
        }
    }
}

/// Purging keeps every session that is live at `now`.
proof fn lemma_purge_keeps_live(t: Seq<SessionView>, c: SessionConfig, now: nat)
    ensures
        forall|j: int| 0 <= j < t.len() && !is_expired(#[trigger] t[j], c, now) ==> purge(t, c, now).contains(t[j]),
    decreases t.len(),
{
    if t.len() > 0 {
        let d = t.drop_last();
        lemma_purge_keeps_live(d, c, now);
        let p = purge(d, c, now);
        assert forall|j: int| 0 <= j < t.len() && !is_expired(#[trigger] t[j], c, now) implies purge(
            t,
            c,
            now,
        ).contains(t[j]) by {
            if j < t.len() - 1 {
                assert(d[j] == t[j]);
                assert(p.contains(d[j]));
                let a = choose|a: int| 0 <= a < p.len() && p[a] == d[j];
                if !is_expired(t.last(), c, now) {
                    assert(p.push(t.last())[a] == p[a]);
                }
            } else {
                let q = p.push(t.last());
                assert(q[q.len() - 1] == t[j]);
            }
        }
    }
}

/// A listing keeps every session of the environment that the viewer may see.
proof fn lemma_listed_keeps_visible(t: Seq<SessionView>, env: Seq<char>, v: Viewer)
    ensures
        forall|j: int|
            0 <= j < t.len() && (#[trigger] t[j]).env == env && visible(t[j], v) ==> listed(t, env, v).contains(t[j]),
    decreases t.len(),
{
    if t.len() > 0 {
        let d = t.drop_last();
        lemma_listed_keeps_visible(d, env, v);
        let l = listed(d, env, v);
        assert forall|j: int| 0 <= j < t.len() && (#[trigger] t[j]).env == env && visible(t[j], v) implies listed(
            t,
            env,
            v,
        ).contains(t[j]) by {
            if j < t.len() - 1 {
                assert(d[j] == t[j]);
                assert(l.contains(d[j]));
                let a = choose|a: int| 0 <= a < l.len() && l[a] == d[j];
                if t.last().env == env && visible(t.last(), v) {
                    assert(l.push(t.last())[a] == l[a]);
                }
            } else {
                let q = l.push(t.last());
                assert(q[q.len() - 1] == t[j]);
            }
        }
    }
}

/// A listing is complete: every session of the table that is live at `now`,
/// belongs to the requested environment and is visible to the viewer
/// appears in it, however long ago it was created or last used.
pub proof fn law_listing_is_complete(t: Seq<SessionView>, env: Seq<char>, v: Viewer, c: SessionConfig, now: nat)
    ensures
        forall|j: int|
            0 <= j < t.len() && !is_expired(#[trigger] t[j], c, now) && t[j].env == env && visible(t[j], v)
                ==> listed(purge(t, c, now), env, v).contains(t[j]),
{
    lemma_purge_keeps_live(t, c, now);
    let p = purge(t, c, now);
    lemma_listed_keeps_visible(p, env, v);
    assert forall|j: int|
        0 <= j < t.len() && !is_expired(#[trigger] t[j], c, now) && t[j].env == env && visible(t[j], v) implies listed(
        p,
        env,
        v,
    ).contains(t[j]) by {
        assert(p.contains(t[j]));
        let a = choose|a: int| 0 <= a < p.len() && p[a] == t[j];
        assert(p[a].env == env && visible(p[a], v));
    }
}

/// A listing returns only live sessions of the requested environment that
/// the viewer may see.
pub proof fn law_listing_is_live_visible_and_scoped(
    t: Seq<SessionView>,
    env: Seq<char>,
    v: Viewer,
    c: SessionConfig,
    now: nat,
)
    requires
        ids_distinct(t),
    ensures
        forall|k: int|
            0 <= k < listed(purge(t, c, now), env, v).len() ==> {
                &&& !is_expired(#[trigger] listed(purge(t, c, now), env, v)[k], c, now)
                &&& listed(purge(t, c, now), env, v)[k].env == env
                &&& visible(listed(purge(t, c, now), env, v)[k], v)
            },
{
    lemma_purge_props(t, c, now);
    let p = purge(t, c, now);
    lemma_listed_props(p, env, v);
    assert forall|k: int| 0 <= k < listed(p, env, v).len() implies !is_expired(
        #[trigger] listed(p, env, v)[k],
        c,
        now,
    ) by {
        let x = listed(p, env, v)[k];
        assert(p.contains(x));
        let j = choose|j: int| 0 <= j < p.len() && p[j] == x;
        assert(!is_expired(p[j], c, now));
    }
}

/// No expiry path loses a session silently: every session of the table is
/// either kept by a purge (exactly when it is live) or has its id reported
/// among the purged ids (exactly when it is expired).
pub proof fn law_purge_reports_every_expired_session(t: Seq<SessionView>, c: SessionConfig, now: nat)
    requires
        ids_distinct(t),
    ensures
        forall|k: int|
            0 <= k < t.len() ==> (is_expired(#[trigger] t[k], c, now) <==> expired_ids(t, c, now).contains(t[k].id)),
        forall|k: int| 0 <= k < t.len() ==> (!is_expired(#[trigger] t[k], c, now) <==> purge(t, c, now).contains(t[k])),
    decreases t.len(),
{
    if t.len() > 0 {
        let d = t.drop_last();
        assert forall|a: int, b: int| 0 <= a < b < d.len() implies #[trigger] d[a].id != #[trigger] d[b].id by {
            assert(d[a] == t[a] && d[b] == t[b]);
        }
        law_purge_reports_every_expired_session(d, c, now);
        lemma_expired_ids_from(d, c, now);
        lemma_purge_props(d, c, now);
        let last = t[t.len() - 1];
        assert forall|k: int| 0 <= k < t.len() implies (is_expired(#[trigger] t[k], c, now)
            <==> expired_ids(t, c, now).contains(t[k].id)) by {
            if k < d.len() {
                assert(d[k] == t[k]);
                if is_expired(last, c, now) {
                    assert(expired_ids(t, c, now) == expired_ids(d, c, now).push(last.id));
                    if expired_ids(t, c, now).contains(t[k].id) && !expired_ids(d, c, now).contains(t[k].id) {
                        let j = choose|j: int| 0 <= j < expired_ids(t, c, now).len() && expired_ids(t, c, now)[j] == t[k].id;
                        assert(j == expired_ids(d, c, now).len());
                        assert(t[k].id != last.id);
                    }
                    if expired_ids(d, c, now).contains(t[k].id) {
                        let j = choose|j: int| 0 <= j < expired_ids(d, c, now).len() && expired_ids(d, c, now)[j] == t[k].id;
                        assert(expired_ids(t, c, now)[j] == t[k].id);
                    }
                }
            } else {
                if is_expired(last, c, now) {
                    assert(expired_ids(t, c, now)[expired_ids(t, c, now).len() - 1] == last.id);
                } else {
                    if expired_ids(d, c, now).contains(last.id) {
                        let j = choose|j: int| 0 <= j < expired_ids(d, c, now).len() && expired_ids(d, c, now)[j] == last.id;
                        let m = choose|m: int| 0 <= m < d.len() && d[m].id == expired_ids(d, c, now)[j];
                        assert(t[m].id == last.id);
                    }
                }
            }
        }
        assert forall|k: int| 0 <= k < t.len() implies (!is_expired(#[trigger] t[k], c, now) <==> purge(
            t,
            c,
            now,
        ).contains(t[k])) by {
            let p = purge(t, c, now);
            if k < d.len() {
                assert(d[k] == t[k]);
                if !is_expired(last, c, now) {
                    assert(p == purge(d, c, now).push(last));
                    if purge(d, c, now).contains(t[k]) {
                        let j = choose|j: int| 0 <= j < purge(d, c, now).len() && purge(d, c, now)[j] == t[k];
                        assert(p[j] == t[k]);
                    }
                    if p.contains(t[k]) && is_expired(t[k], c, now) {
                        let j = choose|j: int| 0 <= j < p.len() && p[j] == t[k];
                        if j < purge(d, c, now).len() {
                            assert(purge(d, c, now)[j] == t[k]);
                        }
                    }
                }
            } else {
                if !is_expired(last, c, now) {
                    assert(p[p.len() - 1] == last);
                } else if p.contains(last) {
                    let j = choose|j: int| 0 <= j < p.len() && p[j] == last;
                    assert(!is_expired(p[j], c, now));
                }
            }
        }
    }
}

proof fn lemma_expired_ids_from(t: Seq<SessionView>, c: SessionConfig, now: nat)
    ensures
        forall|j: int|
            0 <= j < expired_ids(t, c, now).len() ==> exists|m: int|
                0 <= m < t.len() && t[m].id == #[trigger] expired_ids(t, c, now)[j],
    decreases t.len(),
{
    if t.len() > 0 {
        let d = t.drop_last();
        lemma_expired_ids_from(d, c, now);
        assert forall|j: int| 0 <= j < expired_ids(t, c, now).len() implies exists|m: int|
            0 <= m < t.len() && t[m].id == #[trigger] expired_ids(t, c, now)[j] by {
            if j < expired_ids(d, c, now).len() {
                assert(expired_ids(t, c, now)[j] == expired_ids(d, c, now)[j]);
                let m = choose|m: int| 0 <= m < d.len() && d[m].id == expired_ids(d, c, now)[j];
                assert(t[m] == d[m]);
            } else {
                assert(t[t.len() - 1].id == expired_ids(t, c, now)[j]);
            }
        }
    }
}

} // verus!
