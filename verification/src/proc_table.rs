//! The process table: `(environment_id, session_id, process_id)` keys, each
//! with its execution state and its capped captured output.
//!
//! The table is bounded. Terminal entries older than the retention period
//! may be evicted at any spawn; when the table is still full, the oldest
//! terminal entries go first. Live entries are never evicted: a table full
//! of live processes refuses the spawn.

use vstd::prelude::*;
use vstd::string::*;

use crate::ids::{is_generated_id, random_id};
use crate::text::{push_decimal, push_str, str_eq};
use crate::process::{ProcessConfig, ProcessError};

verus! {

/// The execution state of a process.
#[derive(Debug, Clone, PartialEq, Eq)]
pub enum ProcessState {
    /// Still running (or not yet reaped).
    Running,
    /// Exited with this code.
    Exited { code: i32 },
    /// Ended without an exit code (killed by a signal, or waiting failed).
    Failed { message: String },
}

/// The content of a process state.
pub enum StateView {
    Running,
    Exited(i32),
    Failed(Seq<char>),
}

impl View for ProcessState {
    type V = StateView;

    open spec fn view(&self) -> StateView {
        match self {
            ProcessState::Running => StateView::Running,
            ProcessState::Exited { code } => StateView::Exited(*code),
            ProcessState::Failed { message } => StateView::Failed(message@),
        }
    }
}

/// One entry of the process table.
#[derive(Debug)]
pub struct ProcessEntry {
    pub environment_id: String,
    pub session_id: String,
    pub process_id: String,
    /// The program as requested.
    pub program: String,
    /// Spawn time, seconds since the Unix epoch.
    pub started_at: u64,
    pub status: ProcessState,
    /// Captured stdout, at most the configured cap.
    pub stdout: Vec<u8>,
    /// Captured stderr, at most the configured cap.
    pub stderr: Vec<u8>,
    /// Some output was discarded (cap reached, or the drain timed out).
    pub truncated: bool,
    /// When the final state was published (`None` while running).
    pub finished_at: Option<u64>,
    /// A kill was requested; the supervisor performs it.
    pub kill_requested: bool,
}

/// The content of a table entry.
pub struct EntryView {
    pub env: Seq<char>,
    pub session: Seq<char>,
    pub pid: Seq<char>,
    pub program: Seq<char>,
    pub started_at: nat,
    pub state: StateView,
    pub stdout: Seq<u8>,
    pub stderr: Seq<u8>,
    pub truncated: bool,
    pub finished_at: Option<nat>,
    pub kill_requested: bool,
}

/// The view of an optional time.
pub open spec fn opt_time(o: Option<u64>) -> Option<nat> {
    match o {
        Some(t) => Some(t as nat),
        None => None,
    }
}

impl View for ProcessEntry {
    type V = EntryView;

    open spec fn view(&self) -> EntryView {
        EntryView {
            env: self.environment_id@,
            session: self.session_id@,
            pid: self.process_id@,
            program: self.program@,
            started_at: self.started_at as nat,
            state: self.status@,
            stdout: self.stdout@,
            stderr: self.stderr@,
            truncated: self.truncated,
            finished_at: opt_time(self.finished_at),
            kill_requested: self.kill_requested,
        }
    }
}

/// The entry is terminal: its state and output are final.
pub open spec fn is_terminal(e: EntryView) -> bool {
    !(e.state is Running)
}

/// The entry has the key `(env, session, pid)`.
pub open spec fn has_key(e: EntryView, env: Seq<char>, session: Seq<char>, pid: Seq<char>) -> bool {
    e.env == env && e.session == session && e.pid == pid
}

/// Two entries share a key.
pub open spec fn same_key(a: EntryView, b: EntryView) -> bool {
    has_key(a, b.env, b.session, b.pid)
}

/// No two entries share a key.
pub open spec fn keys_distinct(t: Seq<EntryView>) -> bool {
    forall|i: int, j: int| 0 <= i < j < t.len() ==> !same_key(#[trigger] t[i], #[trigger] t[j])
}

/// Position of the entry with key `(env, session, pid)`, or -1.
pub open spec fn find_entry(t: Seq<EntryView>, env: Seq<char>, session: Seq<char>, pid: Seq<char>) -> int
    decreases t.len(),
{
    if t.len() == 0 {
        -1
    } else if has_key(t.last(), env, session, pid) {
        t.len() - 1
    } else {
        find_entry(t.drop_last(), env, session, pid)
    }
}

/// Saturating difference.
pub open spec fn sat_sub(a: nat, b: nat) -> nat {
    if a >= b { (a - b) as nat } else { 0 }
}

/// A terminal entry whose final state is older than `retention` at `now`.
/// A terminal entry without a finishing time is never retention-expired.
pub open spec fn retention_expired(e: EntryView, retention: nat, now: nat) -> bool {
    is_terminal(e) && match e.finished_at {
        Some(f) => sat_sub(now, f) > retention,
        None => false,
    }
}

/// The table without its retention-expired entries, in order.
pub open spec fn evict_expired(t: Seq<EntryView>, retention: nat, now: nat) -> Seq<EntryView>
    decreases t.len(),
{
    if t.len() == 0 {
        t
    } else if retention_expired(t.last(), retention, now) {
        evict_expired(t.drop_last(), retention, now)
    } else {
        evict_expired(t.drop_last(), retention, now).push(t.last())
    }
}

/// The age key of a terminal entry: its finishing time, or the epoch when
/// it has none (so that it goes first).
pub open spec fn stamp(e: EntryView) -> nat {
    match e.finished_at {
        Some(f) => f,
        None => 0,
    }
}

/// Position of the oldest terminal entry (the first of the oldest on
/// ties), or -1 when every entry is live.
pub open spec fn oldest_terminal(t: Seq<EntryView>) -> int
    decreases t.len(),
{
    if t.len() == 0 {
        -1
    } else {
        let i = oldest_terminal(t.drop_last());
        if is_terminal(t.last()) && (i < 0 || stamp(t.last()) < stamp(t.drop_last()[i])) {
            t.len() - 1
        } else {
            i
        }
    }
}

/// Evict the oldest terminal entries, one at a time, until fewer than
/// `max` remain or only live entries are left.
pub open spec fn evict_oldest(t: Seq<EntryView>, max: nat) -> Seq<EntryView>
    decreases t.len(),
{
    if t.len() < max || oldest_terminal(t) < 0 {
        t
    } else {
        proof {
            lemma_oldest_terminal(t);
        }
        evict_oldest(t.remove(oldest_terminal(t)), max)
    }
}

/// The oldest terminal entry is terminal and no terminal entry is older.
pub proof fn lemma_oldest_terminal(t: Seq<EntryView>)
    ensures
        -1 <= oldest_terminal(t) < t.len(),
        oldest_terminal(t) >= 0 ==> is_terminal(t[oldest_terminal(t)]),
        oldest_terminal(t) < 0 ==> forall|k: int| 0 <= k < t.len() ==> !is_terminal(#[trigger] t[k]),
        oldest_terminal(t) >= 0 ==> forall|k: int|
            0 <= k < t.len() && is_terminal(#[trigger] t[k]) ==> stamp(t[oldest_terminal(t)]) <= stamp(t[k]),
    decreases t.len(),
{
    if t.len() > 0 {
        let d = t.drop_last();
        lemma_oldest_terminal(d);
        let i = oldest_terminal(d);
        let o = oldest_terminal(t);
        assert forall|k: int| 0 <= k < t.len() && is_terminal(#[trigger] t[k]) implies o >= 0 && stamp(t[o]) <= stamp(
            t[k],
        ) by {
            if k < d.len() {
                assert(d[k] == t[k]);
                if o == i {
                    assert(t[o] == d[i]);
                }
            } else {
                if o == i && i >= 0 {
                    assert(t[o] == d[i]);
                }
            }
        }
        assert forall|k: int| 0 <= k < t.len() && o < 0 implies !is_terminal(#[trigger] t[k]) by {
            if k < d.len() {
                assert(d[k] == t[k]);
            }
        }
        if o >= 0 && o == i {
            assert(t[o] == d[i]);
        }
    }
}

/// Making room for one spawn: evict expired terminal entries; if the table
/// is still full, evict the oldest terminal ones. Returns whether there is
/// room, and the table after eviction.
pub open spec fn make_room(t: Seq<EntryView>, c: ProcessConfig, now: nat) -> (bool, Seq<EntryView>) {
    let t1 = evict_expired(t, c.retention_secs as nat, now);
    if t1.len() < c.max_processes {
        (true, t1)
    } else {
        let t2 = evict_oldest(t1, c.max_processes as nat);
        (t2.len() < c.max_processes, t2)
    }
}

/// Number of entries of one session of one environment.
pub open spec fn session_count(t: Seq<EntryView>, env: Seq<char>, session: Seq<char>) -> nat
    decreases t.len(),
{
    if t.len() == 0 {
        0
    } else if t.last().env == env && t.last().session == session {
        session_count(t.drop_last(), env, session) + 1
    } else {
        session_count(t.drop_last(), env, session)
    }
}

/// Number of entries of one session, whatever the environment.
pub open spec fn count_session(t: Seq<EntryView>, session: Seq<char>) -> nat
    decreases t.len(),
{
    if t.len() == 0 {
        0
    } else if t.last().session == session {
        count_session(t.drop_last(), session) + 1
    } else {
        count_session(t.drop_last(), session)
    }
}

/// `proc-`, the prefix of every process id.
pub open spec fn process_prefix() -> Seq<char> {
    seq!['p', 'r', 'o', 'c', '-']
}

/// A freshly reserved entry: running, no output, no kill requested.
pub open spec fn new_entry(env: Seq<char>, session: Seq<char>, pid: Seq<char>, program: Seq<char>, now: nat) -> EntryView {
    EntryView {
        env,
        session,
        pid,
        program,
        started_at: now,
        state: StateView::Running,
        stdout: Seq::empty(),
        stderr: Seq::empty(),
        truncated: false,
        finished_at: None,
        kill_requested: false,
    }
}

/// The views of a list of entries.
pub open spec fn entry_views(v: Seq<ProcessEntry>) -> Seq<EntryView> {
    Seq::new(v.len(), |i: int| v[i]@)
}

/// Appending a chunk to a capped stream: the bytes kept, and whether any
/// were discarded. Only the room left under `cap` is taken.
pub open spec fn append_capped_spec(buf: Seq<u8>, chunk: Seq<u8>, cap: nat) -> (Seq<u8>, bool) {
    let room = sat_sub(cap, buf.len());
    if room == 0 {
        (buf, true)
    } else if chunk.len() <= room {
        (buf + chunk, false)
    } else {
        (buf + chunk.subrange(0, room as int), true)
    }
}

/// A copy of a byte slice.
pub fn copy_bytes(b: &[u8]) -> (v: Vec<u8>)
    ensures
        v@ == b@,
{
    let mut v: Vec<u8> = Vec::new();
    let mut i: usize = 0;
    while i < b.len()
        invariant
            i <= b@.len(),
            v@ == b@.subrange(0, i as int),
        decreases b@.len() - i,
    {
        v.push(b[i]);
        assert(b@.subrange(0, i + 1) =~= b@.subrange(0, i as int).push(b@[i as int]));
        i = i + 1;
    }
    assert(b@.subrange(0, b@.len() as int) =~= b@);
    v
}

/// Append `chunk` to a capped stream buffer, keeping at most `cap` bytes;
/// `truncated` is set when any byte is discarded (also when the buffer was
/// already full).
pub fn append_capped(buf: &mut Vec<u8>, truncated: &mut bool, chunk: &[u8], cap: usize)
    ensures
        final(buf)@ == append_capped_spec(old(buf)@, chunk@, cap as nat).0,
        *final(truncated) == (*old(truncated) || append_capped_spec(old(buf)@, chunk@, cap as nat).1),
{
    let room: usize = if cap >= buf.len() { cap - buf.len() } else { 0 };
    if room == 0 {
        *truncated = true;
        return;
    }
    let take: usize = if chunk.len() <= room { chunk.len() } else { room };
    let mut i: usize = 0;
    while i < take
        invariant
            take <= chunk@.len(),
            i <= take,
            buf@ == old(buf)@ + chunk@.subrange(0, i as int),
        decreases take - i,
    {
        buf.push(chunk[i]);
        assert(chunk@.subrange(0, i + 1) =~= chunk@.subrange(0, i as int).push(chunk@[i as int]));
        i = i + 1;
    }
    if chunk.len() <= room {
        assert(chunk@.subrange(0, take as int) =~= chunk@);
    } else {
        *truncated = true;
    }
}

/// A copy of a process state.
pub fn copy_state(s: &ProcessState) -> (c: ProcessState)
    ensures
        c@ == s@,
{
    match s {
        ProcessState::Running => ProcessState::Running,
        ProcessState::Exited { code } => ProcessState::Exited { code: *code },
        ProcessState::Failed { message } => ProcessState::Failed { message: message.clone() },
    }
}

/// Whether a state is terminal.
pub fn state_is_terminal(s: &ProcessState) -> (r: bool)
    ensures
        r == !(s@ is Running),
{
    match s {
        ProcessState::Running => false,
        _ => true,
    }
}

/// The process table.
pub struct ProcessTable {
    entries: Vec<ProcessEntry>,
}

impl ProcessTable {
    /// The entries, in insertion order.
    pub closed spec fn view_entries(&self) -> Seq<EntryView> {
        entry_views(self.entries@)
    }

    /// No two entries share a key.
    pub open spec fn wf(&self) -> bool {
        keys_distinct(self.view_entries())
    }

    /// An empty table.
    pub fn new() -> (t: ProcessTable)
        ensures
            t.wf(),
            t.view_entries().len() == 0,
    {
        let t = ProcessTable { entries: Vec::new() };
        assert(t.view_entries() =~= Seq::<EntryView>::empty());
        t
    }

    /// Number of retained entries (running + retained terminal).
    pub fn len(&self) -> (n: usize)
        ensures
            n == self.view_entries().len(),
    {
        self.entries.len()
    }

    fn find(&self, env: &str, session: &str, pid: &str) -> (r: Option<usize>)
        ensures
            match r {
                Some(i) => find_entry(self.view_entries(), env@, session@, pid@) == i as int && i
                    < self.entries@.len(),
                None => find_entry(self.view_entries(), env@, session@, pid@) < 0,
            },
    {
        let ghost full = self.view_entries();
        let mut i: usize = self.entries.len();
        assert(full.subrange(0, i as int) =~= full);
        while i > 0
            invariant
                i <= self.entries@.len(),
                full == self.view_entries(),
                find_entry(full, env@, session@, pid@) == find_entry(full.subrange(0, i as int), env@, session@, pid@),
            decreases i,
        {
            let ghost sub = full.subrange(0, i as int);
            let e = &self.entries[i - 1];
            if str_eq(e.environment_id.as_str(), env) && str_eq(e.session_id.as_str(), session) && str_eq(
                e.process_id.as_str(),
                pid,
            ) {
                assert(sub.last() == full[i - 1]);
                return Some(i - 1);
            }
            assert(sub.last() == full[i - 1]);
            assert(sub.drop_last() =~= full.subrange(0, i - 1));
            i = i - 1;
        }
        None
    }
}


/// A copy of a table entry.
pub fn copy_entry(e: &ProcessEntry) -> (c: ProcessEntry)
    ensures
        c@ == e@,
{
    ProcessEntry {
        environment_id: e.environment_id.clone(),
        session_id: e.session_id.clone(),
        process_id: e.process_id.clone(),
        program: e.program.clone(),
        started_at: e.started_at,
        status: copy_state(&e.status),
        stdout: copy_bytes(e.stdout.as_slice()),
        stderr: copy_bytes(e.stderr.as_slice()),
        truncated: e.truncated,
        finished_at: e.finished_at,
        kill_requested: e.kill_requested,
    }
}

/// Retention eviction keeps exactly the entries that are not expired, in
/// order, and keeps keys distinct.
pub proof fn lemma_evict_expired(t: Seq<EntryView>, retention: nat, now: nat)
    requires
        keys_distinct(t),
    ensures
        keys_distinct(evict_expired(t, retention, now)),
        evict_expired(t, retention, now).len() <= t.len(),
        forall|k: int|
            0 <= k < evict_expired(t, retention, now).len() ==> !retention_expired(
                #[trigger] evict_expired(t, retention, now)[k],
                retention,
                now,
            ) && t.contains(evict_expired(t, retention, now)[k]),
        forall|k: int|
            0 <= k < t.len() && !retention_expired(#[trigger] t[k], retention, now) ==> evict_expired(
                t,
                retention,
                now,
            ).contains(t[k]),
    decreases t.len(),
{
    if t.len() > 0 {
        let d = t.drop_last();
        assert forall|a: int, b: int| 0 <= a < b < d.len() implies !same_key(#[trigger] d[a], #[trigger] d[b]) by {
            assert(d[a] == t[a] && d[b] == t[b]);
        }
        lemma_evict_expired(d, retention, now);
        let p = evict_expired(d, retention, now);
        let q = evict_expired(t, retention, now);
        let last = t[t.len() - 1];
        if !retention_expired(last, retention, now) {
            assert(q == p.push(last));
            assert forall|a: int, b: int| 0 <= a < b < q.len() implies !same_key(#[trigger] q[a], #[trigger] q[b]) by {
                if b == q.len() - 1 {
                    assert(q[a] == p[a]);
                    assert(d.contains(p[a]));
                    let j = choose|j: int| 0 <= j < d.len() && d[j] == p[a];
                    assert(t[j] == d[j]);
                } else {
                    assert(q[a] == p[a] && q[b] == p[b]);
                }
            }
            assert forall|k: int| 0 <= k < q.len() implies !retention_expired(#[trigger] q[k], retention, now)
                && t.contains(q[k]) by {
                if k == q.len() - 1 {
                    assert(t[t.len() - 1] == q[k]);
                } else {
                    assert(q[k] == p[k]);
                    let j = choose|j: int| 0 <= j < d.len() && d[j] == p[k];
                    assert(t[j] == q[k]);
                }
            }
            assert forall|k: int| 0 <= k < t.len() && !retention_expired(#[trigger] t[k], retention, now) implies q.contains(
                t[k],
            ) by {
                if k == t.len() - 1 {
                    assert(q[q.len() - 1] == t[k]);
                } else {
                    assert(d[k] == t[k]);
                    let j = choose|j: int| 0 <= j < p.len() && p[j] == t[k];
                    assert(q[j] == t[k]);
                }
            }
        } else {
            assert forall|k: int| 0 <= k < q.len() implies !retention_expired(#[trigger] q[k], retention, now)
                && t.contains(q[k]) by {
                let j = choose|j: int| 0 <= j < d.len() && d[j] == p[k];
                assert(t[j] == q[k]);
            }
            assert forall|k: int| 0 <= k < t.len() && !retention_expired(#[trigger] t[k], retention, now) implies q.contains(
                t[k],
            ) by {
                assert(d[k] == t[k]);
            }
        }
    }
}

/// Removing an entry keeps keys distinct and keeps every other entry.
pub proof fn lemma_remove_entry(t: Seq<EntryView>, i: int)
    requires
        keys_distinct(t),
        0 <= i < t.len(),
    ensures
        keys_distinct(t.remove(i)),
        forall|k: int| 0 <= k < t.len() && k != i ==> t.remove(i).contains(#[trigger] t[k]),
        forall|k: int| 0 <= k < t.remove(i).len() ==> t.contains(#[trigger] t.remove(i)[k]),
        forall|k: int| 0 <= k < t.remove(i).len() ==> !same_key(#[trigger] t.remove(i)[k], t[i]),
{
    let u = t.remove(i);
    assert forall|a: int, b: int| 0 <= a < b < u.len() implies !same_key(#[trigger] u[a], #[trigger] u[b]) by {
        let a2 = if a < i { a } else { a + 1 };
        let b2 = if b < i { b } else { b + 1 };
        assert(u[a] == t[a2] && u[b] == t[b2]);
    }
    assert forall|k: int| 0 <= k < t.len() && k != i implies u.contains(#[trigger] t[k]) by {
        let k2 = if k < i { k } else { k - 1 };
        assert(u[k2] == t[k]);
    }
    assert forall|k: int| 0 <= k < u.len() implies t.contains(#[trigger] u[k]) by {
        let k2 = if k < i { k } else { k + 1 };
        assert(u[k] == t[k2]);
    }
    assert forall|k: int| 0 <= k < u.len() implies !same_key(#[trigger] u[k], t[i]) by {
        let k2 = if k < i { k } else { k + 1 };
        assert(u[k] == t[k2]);
    }
}

/// Oldest-first eviction keeps keys distinct, never grows the table, and
/// keeps every live entry.
pub proof fn lemma_evict_oldest(t: Seq<EntryView>, max: nat)
    requires
        keys_distinct(t),
    ensures
        keys_distinct(evict_oldest(t, max)),
        evict_oldest(t, max).len() <= t.len(),
        evict_oldest(t, max).len() < max || forall|k: int|
            0 <= k < evict_oldest(t, max).len() ==> !is_terminal(#[trigger] evict_oldest(t, max)[k]),
        forall|k: int| 0 <= k < evict_oldest(t, max).len() ==> t.contains(#[trigger] evict_oldest(t, max)[k]),
        forall|k: int| 0 <= k < t.len() && !is_terminal(#[trigger] t[k]) ==> evict_oldest(t, max).contains(t[k]),
    decreases t.len(),
{
    lemma_oldest_terminal(t);
    if !(t.len() < max || oldest_terminal(t) < 0) {
        let i = oldest_terminal(t);
        let u = t.remove(i);
        lemma_remove_entry(t, i);
        lemma_evict_oldest(u, max);
        let r = evict_oldest(u, max);
        assert forall|k: int| 0 <= k < r.len() implies t.contains(#[trigger] r[k]) by {
            assert(u.contains(r[k]));
            let j = choose|j: int| 0 <= j < u.len() && u[j] == r[k];
            assert(t.contains(u[j]));
        }
        assert forall|k: int| 0 <= k < t.len() && !is_terminal(#[trigger] t[k]) implies r.contains(t[k]) by {
            assert(k != i);
            assert(u.contains(t[k]));
            let j = choose|j: int| 0 <= j < u.len() && u[j] == t[k];
            assert(!is_terminal(u[j]));
        }
    } else {
        assert forall|k: int| 0 <= k < t.len() && !is_terminal(#[trigger] t[k]) implies evict_oldest(t, max).contains(
            t[k],
        ) by {
            assert(evict_oldest(t, max)[k] == t[k]);
        }
    }
}

impl ProcessTable {
    /// Drop the terminal entries whose final state is older than
    /// `retention_secs` at `now`.
    pub fn evict_expired_terminal_entries(&mut self, retention_secs: u64, now: u64)
        requires
            old(self).wf(),
        ensures
            final(self).wf(),
            final(self).view_entries() == evict_expired(old(self).view_entries(), retention_secs as nat, now as nat),
    {
        let ghost t = self.view_entries();
        let mut kept: Vec<ProcessEntry> = Vec::new();
        let mut i: usize = 0;
        let n = self.entries.len();
        while i < n
            invariant
                n == self.entries@.len(),
                t == self.view_entries(),
                i <= n,
                entry_views(kept@) == evict_expired(t.subrange(0, i as int), retention_secs as nat, now as nat),
            decreases n - i,
        {
            let ghost sub = t.subrange(0, i + 1);
            assert(sub.drop_last() =~= t.subrange(0, i as int));
            let e = &self.entries[i];
            assert(sub.last() == e@);
            let expired = state_is_terminal(&e.status) && match e.finished_at {
                Some(f) => {
                    let age: u64 = if now >= f { now - f } else { 0 };
                    age > retention_secs
                },
                None => false,
            };
            if !expired {
                let ghost before = kept@;
                kept.push(copy_entry(e));
                assert(entry_views(kept@) =~= entry_views(before).push(sub.last()));
            }
            i = i + 1;
        }
        assert(t.subrange(0, n as int) =~= t);
        proof {
            lemma_evict_expired(t, retention_secs as nat, now as nat);
        }
        self.entries = kept;
    }

    fn oldest_terminal_index(&self) -> (r: Option<usize>)
        ensures
            match r {
                Some(i) => oldest_terminal(self.view_entries()) == i as int,
                None => oldest_terminal(self.view_entries()) < 0,
            },
    {
        let ghost t = self.view_entries();
        let mut best: Option<usize> = None;
        let mut best_stamp: u64 = 0;
        let mut i: usize = 0;
        while i < self.entries.len()
            invariant
                t == self.view_entries(),
                i <= t.len(),
                match best {
                    Some(b) => oldest_terminal(t.subrange(0, i as int)) == b as int && b < i && best_stamp == stamp(
                        t[b as int],
                    ),
                    None => oldest_terminal(t.subrange(0, i as int)) < 0,
                },
            decreases t.len() - i,
        {
            let ghost sub = t.subrange(0, i + 1);
            assert(sub.drop_last() =~= t.subrange(0, i as int));
            let e = &self.entries[i];
            assert(sub.last() == e@);
            let s: u64 = match e.finished_at {
                Some(f) => f,
                None => 0,
            };
            if state_is_terminal(&e.status) {
                let better = match best {
                    None => true,
                    Some(_) => s < best_stamp,
                };
                if better {
                    best = Some(i);
                    best_stamp = s;
                } else {
                    proof {
                        let b = best->0;
                        assert(sub.drop_last()[b as int] == t[b as int]);
                    }
                }
            }
            proof {
                if best is Some {
                    assert(sub.drop_last().len() == i);
                }
                match best {
                    Some(b) => {
                        if b < i {
                            assert(sub.drop_last()[b as int] == t[b as int]);
                        }
                    },
                    None => {},
                }
            }
            i = i + 1;
        }
        assert(t.subrange(0, t.len() as int) =~= t);
        best
    }

    /// Drop the oldest terminal entries until fewer than `max` remain or
    /// only live entries are left. Live entries are never candidates.
    pub fn evict_oldest_terminal_entries(&mut self, max: usize)
        requires
            old(self).wf(),
        ensures
            final(self).wf(),
            final(self).view_entries() == evict_oldest(old(self).view_entries(), max as nat),
    {
        let ghost target = evict_oldest(self.view_entries(), max as nat);
        while self.entries.len() >= max
            invariant
                self.wf(),
                target == evict_oldest(old(self).view_entries(), max as nat),
                evict_oldest(self.view_entries(), max as nat) == target,
            decreases self.entries@.len(),
        {
            match self.oldest_terminal_index() {
                None => {
                    assert(evict_oldest(self.view_entries(), max as nat) == self.view_entries());
                    return;
                },
                Some(i) => {
                    let ghost t = self.view_entries();
                    proof {
                        lemma_oldest_terminal(t);
                        lemma_remove_entry(t, i as int);
                    }
                    self.entries.remove(i);
                    assert(self.view_entries() =~= t.remove(i as int));
                },
            }
        }
    }

    /// Make room for one new entry: evict retention-expired terminal
    /// entries, then, while the table is full, the oldest terminal ones.
    /// Refuses with `TooManyProcesses` when every remaining entry is live.
    pub fn make_room_for_spawn(&mut self, config: &ProcessConfig, now: u64) -> (r: Result<(), ProcessError>)
        requires
            old(self).wf(),
        ensures
            final(self).wf(),
            final(self).view_entries() == make_room(old(self).view_entries(), *config, now as nat).1,
            make_room(old(self).view_entries(), *config, now as nat).0 ==> r is Ok,
            !make_room(old(self).view_entries(), *config, now as nat).0 ==> r matches Err(
                ProcessError::TooManyProcesses(_),
            ),
    {
        self.evict_expired_terminal_entries(config.retention_secs, now);
        if self.entries.len() < config.max_processes {
            return Ok(());
        }
        self.evict_oldest_terminal_entries(config.max_processes);
        if self.entries.len() >= config.max_processes {
            let mut m = String::from_str("process table full (");
            push_decimal(&mut m, self.entries.len() as u64);
            push_str(&mut m, " entries, all live): refusing spawn");
            return Err(ProcessError::TooManyProcesses(m));
        }
        Ok(())
    }
}


/// Which captured stream a chunk belongs to.
#[derive(Debug, Clone, Copy)]
pub enum StreamKind {
    Stdout,
    Stderr,
}

/// Number of live entries of one session of one environment.
pub open spec fn live_in_session(t: Seq<EntryView>, env: Seq<char>, session: Seq<char>) -> nat
    decreases t.len(),
{
    if t.len() == 0 {
        0
    } else if t.last().env == env && t.last().session == session && !is_terminal(t.last()) {
        live_in_session(t.drop_last(), env, session) + 1
    } else {
        live_in_session(t.drop_last(), env, session)
    }
}

/// The table after a session cascade: every live entry of the session has
/// its kill requested; nothing else changes.
pub open spec fn kill_session_spec(t: Seq<EntryView>, env: Seq<char>, session: Seq<char>) -> Seq<EntryView> {
    Seq::new(
        t.len(),
        |i: int|
            if t[i].env == env && t[i].session == session && !is_terminal(t[i]) {
                EntryView { kill_requested: true, ..t[i] }
            } else {
                t[i]
            },
    )
}

/// An entry after a chunk of output was appended to one of its streams.
pub open spec fn with_output(e: EntryView, kind: StreamKind, chunk: Seq<u8>, cap: nat) -> EntryView {
    match kind {
        StreamKind::Stdout => {
            let (b, dropped) = append_capped_spec(e.stdout, chunk, cap);
            EntryView { stdout: b, truncated: e.truncated || dropped, ..e }
        },
        StreamKind::Stderr => {
            let (b, dropped) = append_capped_spec(e.stderr, chunk, cap);
            EntryView { stderr: b, truncated: e.truncated || dropped, ..e }
        },
    }
}

/// The answer to one poll of a wait: `None` to keep waiting.
pub struct WaitOutcome {
    pub stdout: Vec<u8>,
    pub stderr: Vec<u8>,
    pub exit_code: Option<i32>,
    pub timed_out: bool,
    pub truncated: bool,
}

/// What a wait returns for an entry: the final outcome once terminal; a
/// timed-out snapshot when the deadline passed; nothing otherwise.
pub open spec fn wait_answer(e: EntryView, deadline_passed: bool, w: WaitOutcome) -> bool {
    &&& w.stdout@ == e.stdout
    &&& w.stderr@ == e.stderr
    &&& w.truncated == e.truncated
    &&& match e.state {
        StateView::Exited(code) => w.exit_code == Some(code) && !w.timed_out,
        StateView::Failed(_) => w.exit_code is None && !w.timed_out,
        StateView::Running => w.exit_code is None && w.timed_out,
    }
}

impl ProcessTable {
    fn not_found(pid: &str) -> (e: ProcessError)
        ensures
            e is NotFound,
    {
        let mut m = String::from_str("unknown process id '");
        push_str(&mut m, pid);
        push_str(&mut m, "'");
        ProcessError::NotFound(m)
    }

    fn session_count_exec(&self, env: &str, session: &str) -> (n: usize)
        ensures
            n == session_count(self.view_entries(), env@, session@),
    {
        let ghost t = self.view_entries();
        let mut n: usize = 0;
        let mut i: usize = 0;
        while i < self.entries.len()
            invariant
                t == self.view_entries(),
                i <= t.len(),
                n == session_count(t.subrange(0, i as int), env@, session@),
                n <= i,
            decreases t.len() - i,
        {
            let ghost sub = t.subrange(0, i + 1);
            assert(sub.drop_last() =~= t.subrange(0, i as int));
            assert(sub.last() == self.entries@[i as int]@);
            if str_eq(self.entries[i].environment_id.as_str(), env) && str_eq(
                self.entries[i].session_id.as_str(),
                session,
            ) {
                n = n + 1;
            }
            i = i + 1;
        }
        assert(t.subrange(0, t.len() as int) =~= t);
        n
    }

    /// Number of entries (live + retained terminal) of one session, whatever
    /// the environment.
    pub fn count_for_session(&self, session_id: &str) -> (n: usize)
        ensures
            n == count_session(self.view_entries(), session_id@),
    {
        let ghost t = self.view_entries();
        let mut n: usize = 0;
        let mut i: usize = 0;
        while i < self.entries.len()
            invariant
                t == self.view_entries(),
                i <= t.len(),
                n == count_session(t.subrange(0, i as int), session_id@),
                n <= i,
            decreases t.len() - i,
        {
            let ghost sub = t.subrange(0, i + 1);
            assert(sub.drop_last() =~= t.subrange(0, i as int));
            assert(sub.last() == self.entries@[i as int]@);
            if str_eq(self.entries[i].session_id.as_str(), session_id) {
                n = n + 1;
            }
            i = i + 1;
        }
        assert(t.subrange(0, t.len() as int) =~= t);
        n
    }

    /// Draw a process id whose key is not in the table (up to 8 attempts).
    fn fresh_process_id(&self, env: &str, session: &str) -> (r: Result<String, ProcessError>)
        ensures
            r matches Ok(s) ==> is_generated_id(s@, process_prefix()) && find_entry(
                self.view_entries(),
                env@,
                session@,
                s@,
            ) < 0,
            r matches Err(e) ==> e is Internal,
    {
        let mut attempt: usize = 0;
        while attempt < 8
            decreases 8 - attempt,
        {
            let prefix = "proc-";
            proof {
                reveal_strlit("proc-");
            }
            assert(prefix@ == process_prefix());
            match random_id(prefix) {
                Ok(candidate) => {
                    if self.find(env, session, candidate.as_str()).is_none() {
                        return Ok(candidate);
                    }
                },
                Err(e) => {
                    let mut m = String::from_str("failed to generate process id: ");
                    push_str(&mut m, e.as_str());
                    return Err(ProcessError::Internal(m));
                },
            }
            attempt = attempt + 1;
        }
        Err(ProcessError::Internal(String::from_str("repeated process id collisions; refusing spawn")))
    }

    /// Reserve a table slot for a spawn into session `session` of `env`,
    /// before anything is spawned.
    ///
    /// Retention-expired terminal entries are evicted first; then a session
    /// already holding `max_processes_per_session` entries is refused; then
    /// room is made in the whole table (oldest terminal entries first; a
    /// table full of live entries is refused); then a fresh `proc-` id is
    /// drawn and a running entry for `program` is stored, started at `now`.
    pub fn reserve(
        &mut self,
        config: &ProcessConfig,
        env: &str,
        session: &str,
        program: &str,
        now: u64,
    ) -> (r: Result<String, ProcessError>)
        requires
            old(self).wf(),
        ensures
            final(self).wf(),
            ({
                let t1 = evict_expired(old(self).view_entries(), config.retention_secs as nat, now as nat);
                let (room, t2) = make_room(t1, *config, now as nat);
                if session_count(t1, env@, session@) >= config.max_processes_per_session {
                    r matches Err(ProcessError::TooManyProcesses(_)) && final(self).view_entries() == t1
                } else if !room {
                    r matches Err(ProcessError::TooManyProcesses(_)) && final(self).view_entries() == t2
                } else {
                    ||| r matches Err(ProcessError::Internal(_)) && final(self).view_entries() == t2
                    ||| r matches Ok(pid) && {
                        &&& is_generated_id(pid@, process_prefix())
                        &&& find_entry(t2, env@, session@, pid@) < 0
                        &&& final(self).view_entries() == t2.push(new_entry(env@, session@, pid@, program@, now as nat))
                        &&& final(self).view_entries().len() <= config.max_processes
                        &&& session_count(final(self).view_entries(), env@, session@)
                            <= config.max_processes_per_session
                    }
                }
            }),
    {
        self.evict_expired_terminal_entries(config.retention_secs, now);
        let count = self.session_count_exec(env, session);
        if count >= config.max_processes_per_session {
            let mut m = String::from_str("session '");
            push_str(&mut m, session);
            push_str(&mut m, "' holds ");
            push_decimal(&mut m, count as u64);
            push_str(&mut m, " processes (cap ");
            push_decimal(&mut m, config.max_processes_per_session as u64);
            push_str(&mut m, "): refusing spawn");
            return Err(ProcessError::TooManyProcesses(m));
        }
        match self.make_room_for_spawn(config, now) {
            Ok(()) => {},
            Err(e) => {
                return Err(e);
            },
        }
        let pid = match self.fresh_process_id(env, session) {
            Ok(p) => p,
            Err(e) => {
                return Err(e);
            },
        };
        let entry = ProcessEntry {
            environment_id: env.to_string(),
            session_id: session.to_string(),
            process_id: pid.clone(),
            program: program.to_string(),
            started_at: now,
            status: ProcessState::Running,
            stdout: Vec::new(),
            stderr: Vec::new(),
            truncated: false,
            finished_at: None,
            kill_requested: false,
        };
        let ghost t2 = self.view_entries();
        assert(entry@ == new_entry(env@, session@, pid@, program@, now as nat));
        proof {
            law_reserve_respects_session_cap(
                old(self).view_entries(),
                *config,
                now as nat,
                env@,
                session@,
                pid@,
                program@,
            );
        }
        self.entries.push(entry);
        proof {
            assert(self.view_entries() =~= t2.push(new_entry(env@, session@, pid@, program@, now as nat)));
            lemma_find_entry(t2, env@, session@, pid@);
            let u = self.view_entries();
            assert forall|a: int, b: int| 0 <= a < b < u.len() implies !same_key(#[trigger] u[a], #[trigger] u[b]) by {
                if b == t2.len() {
                    assert(u[a] == t2[a]);
                } else {
                    assert(u[a] == t2[a] && u[b] == t2[b]);
                }
            }
        }
        Ok(pid)
    }

    /// Drop the entry of a spawn that failed after its slot was reserved.
    pub fn release(&mut self, env: &str, session: &str, pid: &str)
        requires
            old(self).wf(),
        ensures
            final(self).wf(),
            ({
                let i = find_entry(old(self).view_entries(), env@, session@, pid@);
                final(self).view_entries() == if i < 0 {
                    old(self).view_entries()
                } else {
                    old(self).view_entries().remove(i)
                }
            }),
    {
        let ghost t = self.view_entries();
        proof {
            lemma_find_entry(t, env@, session@, pid@);
        }
        match self.find(env, session, pid) {
            None => {},
            Some(i) => {
                proof {
                    lemma_remove_entry(t, i as int);
                }
                self.entries.remove(i);
                assert(self.view_entries() =~= t.remove(i as int));
            },
        }
    }

    /// The state of a process, by its full key. Any miss (unknown id, other
    /// session, other environment) is the same `NotFound`.
    pub fn status(&self, env: &str, session: &str, pid: &str) -> (r: Result<ProcessState, ProcessError>)
        ensures
            ({
                let i = find_entry(self.view_entries(), env@, session@, pid@);
                if i < 0 {
                    r matches Err(ProcessError::NotFound(_))
                } else {
                    r matches Ok(s) && s@ == self.view_entries()[i].state
                }
            }),
    {
        match self.find(env, session, pid) {
            None => Err(Self::not_found(pid)),
            Some(i) => Ok(copy_state(&self.entries[i].status)),
        }
    }

    /// One poll of a wait on a process: the outcome once it is terminal, a
    /// timed-out snapshot once the deadline has passed, `None` to keep
    /// waiting. A miss is `NotFound`.
    pub fn wait_poll(&self, env: &str, session: &str, pid: &str, deadline_passed: bool) -> (r: Result<
        Option<WaitOutcome>,
        ProcessError,
    >)
        ensures
            ({
                let i = find_entry(self.view_entries(), env@, session@, pid@);
                if i < 0 {
                    r matches Err(ProcessError::NotFound(_))
                } else {
                    let e = self.view_entries()[i];
                    if is_terminal(e) || deadline_passed {
                        r matches Ok(Some(w)) && wait_answer(e, deadline_passed, w)
                    } else {
                        r matches Ok(None)
                    }
                }
            }),
    {
        match self.find(env, session, pid) {
            None => Err(Self::not_found(pid)),
            Some(i) => {
                let e = &self.entries[i];
                assert(e@ == self.view_entries()[i as int]);
                let exit_code = match &e.status {
                    ProcessState::Running => {
                        if !deadline_passed {
                            return Ok(None);
                        }
                        None
                    },
                    ProcessState::Exited { code } => Some(*code),
                    ProcessState::Failed { .. } => None,
                };
                let timed_out = !state_is_terminal(&e.status);
                Ok(
                    Some(
                        WaitOutcome {
                            stdout: copy_bytes(e.stdout.as_slice()),
                            stderr: copy_bytes(e.stderr.as_slice()),
                            exit_code,
                            timed_out,
                            truncated: e.truncated,
                        },
                    ),
                )
            },
        }
    }

    /// Request the kill of a process (the terminate decision). A live
    /// process gets its kill requested and `Ok(true)` is returned; a
    /// terminal one is left alone and `Ok(false)` is returned; a miss is
    /// `NotFound`.
    pub fn request_kill(&mut self, env: &str, session: &str, pid: &str) -> (r: Result<bool, ProcessError>)
        requires
            old(self).wf(),
        ensures
            final(self).wf(),
            ({
                let t = old(self).view_entries();
                let i = find_entry(t, env@, session@, pid@);
                if i < 0 {
                    r matches Err(ProcessError::NotFound(_)) && final(self).view_entries() == t
                } else if is_terminal(t[i]) {
                    r == Ok::<bool, ProcessError>(false) && final(self).view_entries() == t
                } else {
                    r == Ok::<bool, ProcessError>(true) && final(self).view_entries() == t.update(
                        i,
                        EntryView { kill_requested: true, ..t[i] },
                    )
                }
            }),
    {
        let ghost t = self.view_entries();
        match self.find(env, session, pid) {
            None => Err(Self::not_found(pid)),
            Some(i) => {
                if state_is_terminal(&self.entries[i].status) {
                    return Ok(false);
                }
                let mut e = self.entries.remove(i);
                e.kill_requested = true;
                self.entries.insert(i, e);
                proof {
                    let u = self.view_entries();
                    assert(u =~= t.update(i as int, EntryView { kill_requested: true, ..t[i as int] }));
                    assert forall|a: int, b: int| 0 <= a < b < u.len() implies !same_key(
                        #[trigger] u[a],
                        #[trigger] u[b],
                    ) by {
                        assert(same_key(u[a], u[b]) == same_key(t[a], t[b]));
                    }
                }
                Ok(true)
            },
        }
    }

    /// Session cascade: request the kill of every live process of the
    /// session; terminal entries are neither signalled nor counted. Returns
    /// the number of kills requested.
    pub fn kill_session_processes(&mut self, env: &str, session: &str) -> (n: usize)
        requires
            old(self).wf(),
        ensures
            final(self).wf(),
            final(self).view_entries() == kill_session_spec(old(self).view_entries(), env@, session@),
            n == live_in_session(old(self).view_entries(), env@, session@),
    {
        let ghost t = self.view_entries();
        let mut n: usize = 0;
        let mut i: usize = 0;
        while i < self.entries.len()
            invariant
                t.len() == self.entries@.len(),
                i <= t.len(),
                n <= i,
                n == live_in_session(t.subrange(0, i as int), env@, session@),
                forall|k: int| 0 <= k < i ==> #[trigger] self.view_entries()[k] == kill_session_spec(t, env@, session@)[k],
                forall|k: int| i <= k < t.len() ==> #[trigger] self.view_entries()[k] == t[k],
            decreases t.len() - i,
        {
            let ghost sub = t.subrange(0, i + 1);
            assert(sub.drop_last() =~= t.subrange(0, i as int));
            assert(self.view_entries()[i as int] == t[i as int]);
            assert(sub.last() == t[i as int]);
            let target = str_eq(self.entries[i].environment_id.as_str(), env) && str_eq(
                self.entries[i].session_id.as_str(),
                session,
            ) && !state_is_terminal(&self.entries[i].status);
            if target {
                let ghost before = self.view_entries();
                let mut e = self.entries.remove(i);
                e.kill_requested = true;
                self.entries.insert(i, e);
                assert(self.view_entries() =~= before.update(i as int, EntryView { kill_requested: true, ..t[i as int] }));
                n = n + 1;
            }
            i = i + 1;
        }
        assert(t.subrange(0, t.len() as int) =~= t);
        assert(self.view_entries() =~= kill_session_spec(t, env@, session@));
        proof {
            let u = self.view_entries();
            assert forall|a: int, b: int| 0 <= a < b < u.len() implies !same_key(#[trigger] u[a], #[trigger] u[b]) by {
                assert(same_key(u[a], u[b]) == same_key(t[a], t[b]));
            }
        }
        n
    }

    /// Append a chunk read from one of a process's pipes, keeping at most
    /// `cap` bytes per stream; a miss changes nothing.
    pub fn append_output(&mut self, env: &str, session: &str, pid: &str, kind: StreamKind, chunk: &[u8], cap: usize)
        requires
            old(self).wf(),
        ensures
            final(self).wf(),
            ({
                let t = old(self).view_entries();
                let i = find_entry(t, env@, session@, pid@);
                final(self).view_entries() == if i < 0 {
                    t
                } else {
                    t.update(i, with_output(t[i], kind, chunk@, cap as nat))
                }
            }),
    {
        let ghost t = self.view_entries();
        match self.find(env, session, pid) {
            None => {},
            Some(i) => {
                let mut e = self.entries.remove(i);
                match kind {
                    StreamKind::Stdout => append_capped(&mut e.stdout, &mut e.truncated, chunk, cap),
                    StreamKind::Stderr => append_capped(&mut e.stderr, &mut e.truncated, chunk, cap),
                }
                self.entries.insert(i, e);
                proof {
                    let u = self.view_entries();
                    assert(u =~= t.update(i as int, with_output(t[i as int], kind, chunk@, cap as nat)));
                    assert forall|a: int, b: int| 0 <= a < b < u.len() implies !same_key(
                        #[trigger] u[a],
                        #[trigger] u[b],
                    ) by {
                        assert(same_key(u[a], u[b]) == same_key(t[a], t[b]));
                    }
                }
            },
        }
    }

    /// Mark a process's output as incomplete (its pipe drain timed out).
    pub fn mark_truncated(&mut self, env: &str, session: &str, pid: &str)
        requires
            old(self).wf(),
        ensures
            final(self).wf(),
            ({
                let t = old(self).view_entries();
                let i = find_entry(t, env@, session@, pid@);
                final(self).view_entries() == if i < 0 {
                    t
                } else {
                    t.update(i, EntryView { truncated: true, ..t[i] })
                }
            }),
    {
        let ghost t = self.view_entries();
        match self.find(env, session, pid) {
            None => {},
            Some(i) => {
                let mut e = self.entries.remove(i);
                e.truncated = true;
                self.entries.insert(i, e);
                proof {
                    let u = self.view_entries();
                    assert(u =~= t.update(i as int, EntryView { truncated: true, ..t[i as int] }));
                    assert forall|a: int, b: int| 0 <= a < b < u.len() implies !same_key(
                        #[trigger] u[a],
                        #[trigger] u[b],
                    ) by {
                        assert(same_key(u[a], u[b]) == same_key(t[a], t[b]));
                    }
                }
            },
        }
    }

    /// Publish a process's final state, finished at `now`.
    pub fn finish(&mut self, env: &str, session: &str, pid: &str, status: ProcessState, now: u64)
        requires
            old(self).wf(),
        ensures
            final(self).wf(),
            ({
                let t = old(self).view_entries();
                let i = find_entry(t, env@, session@, pid@);
                final(self).view_entries() == if i < 0 {
                    t
                } else {
                    t.update(i, EntryView { state: status@, finished_at: Some(now as nat), ..t[i] })
                }
            }),
    {
        let ghost t = self.view_entries();
        match self.find(env, session, pid) {
            None => {},
            Some(i) => {
                let mut e = self.entries.remove(i);
                e.status = status;
                e.finished_at = Some(now);
                self.entries.insert(i, e);
                proof {
                    let u = self.view_entries();
                    assert(u =~= t.update(
                        i as int,
                        EntryView { state: status@, finished_at: Some(now as nat), ..t[i as int] },
                    ));
                    assert forall|a: int, b: int| 0 <= a < b < u.len() implies !same_key(
                        #[trigger] u[a],
                        #[trigger] u[b],
                    ) by {
                        assert(same_key(u[a], u[b]) == same_key(t[a], t[b]));
                    }
                }
            },
        }
    }

    /// Whether a kill was requested for a process (`false` on a miss).
    pub fn kill_requested(&self, env: &str, session: &str, pid: &str) -> (r: bool)
        ensures
            ({
                let i = find_entry(self.view_entries(), env@, session@, pid@);
                r == (i >= 0 && self.view_entries()[i].kill_requested)
            }),
    {
        match self.find(env, session, pid) {
            None => false,
            Some(i) => self.entries[i].kill_requested,
        }
    }
}

/// A found entry has the key it was looked up by; a miss means no entry has it.
pub proof fn lemma_find_entry(t: Seq<EntryView>, env: Seq<char>, session: Seq<char>, pid: Seq<char>)
    ensures
        -1 <= find_entry(t, env, session, pid) < t.len(),
        find_entry(t, env, session, pid) >= 0 ==> has_key(t[find_entry(t, env, session, pid)], env, session, pid),
        find_entry(t, env, session, pid) < 0 ==> forall|i: int|
            0 <= i < t.len() ==> !has_key(#[trigger] t[i], env, session, pid),
    decreases t.len(),
{
    if t.len() > 0 {
        lemma_find_entry(t.drop_last(), env, session, pid);
        if find_entry(t, env, session, pid) < 0 {
            assert forall|i: int| 0 <= i < t.len() implies !has_key(#[trigger] t[i], env, session, pid) by {
                if i < t.len() - 1 {
                    assert(t.drop_last()[i] == t[i]);
                }
            }
        } else if find_entry(t, env, session, pid) < t.len() - 1 {
            assert(t.drop_last()[find_entry(t, env, session, pid)] == t[find_entry(t, env, session, pid)]);
        }
    }
}


/// Replacing an entry by one with the same key moves no lookup.
pub proof fn lemma_find_entry_update(t: Seq<EntryView>, i: int, e: EntryView, env: Seq<char>, session: Seq<char>, pid: Seq<char>)
    requires
        0 <= i < t.len(),
        same_key(e, t[i]),
    ensures
        find_entry(t.update(i, e), env, session, pid) == find_entry(t, env, session, pid),
    decreases t.len(),
{
    let u = t.update(i, e);
    if i == t.len() - 1 {
        assert(u.drop_last() =~= t.drop_last());
    } else {
        assert(u.drop_last() =~= t.drop_last().update(i, e));
        lemma_find_entry_update(t.drop_last(), i, e, env, session, pid);
    }
}

/// Terminating, then the supervisor's report, then terminating again: a
/// kill request on a running entry flags it and leaves it running; once the
/// supervisor publishes a final state for it, the entry is found at the same
/// place and is terminal, so a further kill request answers `false` and
/// changes nothing (the contract of `request_kill`).
pub proof fn law_terminate_settles_after_finish(
    t: Seq<EntryView>,
    env: Seq<char>,
    session: Seq<char>,
    pid: Seq<char>,
    status: StateView,
    now: nat,
)
    requires
        find_entry(t, env, session, pid) >= 0,
        !is_terminal(t[find_entry(t, env, session, pid)]),
        !(status is Running),
    ensures
        ({
            let i = find_entry(t, env, session, pid);
            let killed = t.update(i, EntryView { kill_requested: true, ..t[i] });
            let done = killed.update(i, EntryView { state: status, finished_at: Some(now), ..killed[i] });
            &&& find_entry(killed, env, session, pid) == i
            &&& !is_terminal(killed[i]) && killed[i].kill_requested
            &&& find_entry(done, env, session, pid) == i
            &&& is_terminal(done[i]) && done[i].kill_requested && done[i].state == status
            &&& done[i].finished_at == Some(now)
        }),
{
    let i = find_entry(t, env, session, pid);
    lemma_find_entry(t, env, session, pid);
    let killed = t.update(i, EntryView { kill_requested: true, ..t[i] });
    lemma_find_entry_update(t, i, EntryView { kill_requested: true, ..t[i] }, env, session, pid);
    lemma_find_entry_update(
        killed,
        i,
        EntryView { state: status, finished_at: Some(now), ..killed[i] },
        env,
        session,
        pid,
    );
}

/// The per-session count counts every entry of the session, running or
/// terminal: it is the number of table entries with that environment and
/// session; an added entry of the session raises it by one whatever its
/// state; and publishing an entry's final state (or any change that keeps
/// its key) leaves it unchanged.
pub proof fn law_session_count_counts_every_entry(
    t: Seq<EntryView>,
    env: Seq<char>,
    session: Seq<char>,
    e: EntryView,
    i: int,
    status: StateView,
    now: nat,
)
    ensures
        session_count(t, env, session) == t.filter(|x: EntryView| x.env == env && x.session == session).len(),
        session_count(t.push(e), env, session) == session_count(t, env, session) + if e.env == env && e.session
            == session {
            1int
        } else {
            0int
        },
        0 <= i < t.len() ==> session_count(
            t.update(i, EntryView { state: status, finished_at: Some(now), ..t[i] }),
            env,
            session,
        ) == session_count(t, env, session),
    decreases t.len(),
{
    let pred = |x: EntryView| x.env == env && x.session == session;
    reveal_with_fuel(Seq::filter, 1);
    assert(t.push(e).drop_last() =~= t);
    if t.len() > 0 {
        law_session_count_counts_every_entry(t.drop_last(), env, session, e, i, status, now);
        assert(t.filter(pred) == if pred(t.last()) {
            t.drop_last().filter(pred).push(t.last())
        } else {
            t.drop_last().filter(pred)
        });
        if 0 <= i < t.len() {
            let u = t.update(i, EntryView { state: status, finished_at: Some(now), ..t[i] });
            if i == t.len() - 1 {
                assert(u.drop_last() =~= t.drop_last());
            } else {
                assert(u.drop_last() =~= t.drop_last().update(
                    i,
                    EntryView { state: status, finished_at: Some(now), ..t.drop_last()[i] },
                ));
            }
            assert(u.last().env == t.last().env && u.last().session == t.last().session);
        }
    }
}

/// The count of a session's entries across environments likewise counts
/// every entry of the session, running or terminal.
pub proof fn law_count_session_counts_every_entry(t: Seq<EntryView>, session: Seq<char>, e: EntryView)
    ensures
        count_session(t, session) == t.filter(|x: EntryView| x.session == session).len(),
        count_session(t.push(e), session) == count_session(t, session) + if e.session == session {
            1int
        } else {
            0int
        },
    decreases t.len(),
{
    let pred = |x: EntryView| x.session == session;
    reveal_with_fuel(Seq::filter, 1);
    assert(t.push(e).drop_last() =~= t);
    if t.len() > 0 {
        law_count_session_counts_every_entry(t.drop_last(), session, e);
        assert(t.filter(pred) == if pred(t.last()) {
            t.drop_last().filter(pred).push(t.last())
        } else {
            t.drop_last().filter(pred)
        });
    }
}

/// Starting a process keeps the table within its bound on every outcome.
/// From a table within the bound: the retention eviction and the room
/// making never grow it and never drop a running entry; a refusal for want
/// of room leaves a table that is full of running entries; a reservation
/// stays within the bound; and releasing the reservation after a failed
/// spawn gives back the table as it was before the reservation.
pub proof fn law_spawn_keeps_table_bounded(
    t: Seq<EntryView>,
    c: ProcessConfig,
    now: nat,
    env: Seq<char>,
    session: Seq<char>,
    pid: Seq<char>,
    program: Seq<char>,
)
    requires
        keys_distinct(t),
        t.len() <= c.max_processes,
    ensures
        ({
            let t1 = evict_expired(t, c.retention_secs as nat, now);
            let (room, t2) = make_room(t1, c, now);
            let e = new_entry(env, session, pid, program, now);
            &&& t1.len() <= c.max_processes
            &&& t2.len() <= c.max_processes
            &&& forall|k: int| 0 <= k < t.len() && !is_terminal(#[trigger] t[k]) ==> t2.contains(t[k])
            &&& !room ==> t2.len() == c.max_processes && forall|k: int|
                0 <= k < t2.len() ==> !is_terminal(#[trigger] t2[k])
            &&& room ==> t2.push(e).len() <= c.max_processes
            &&& find_entry(t2, env, session, pid) < 0 ==> t2.push(e).remove(find_entry(t2.push(e), env, session, pid)) == t2
        }),
{
    let t1 = evict_expired(t, c.retention_secs as nat, now);
    lemma_evict_expired(t, c.retention_secs as nat, now);
    law_make_room_keeps_live_entries(t1, c, now);
    law_make_room_refuses_only_when_all_live(t1, c, now);
    let t2 = make_room(t1, c, now).1;
    lemma_evict_expired(t1, c.retention_secs as nat, now);
    if t1.len() >= c.max_processes {
        lemma_evict_oldest(evict_expired(t1, c.retention_secs as nat, now), c.max_processes as nat);
    }
    assert forall|k: int| 0 <= k < t.len() && !is_terminal(#[trigger] t[k]) implies t2.contains(t[k]) by {
        assert(!retention_expired(t[k], c.retention_secs as nat, now));
        assert(t1.contains(t[k]));
        let j = choose|j: int| 0 <= j < t1.len() && t1[j] == t[k];
        assert(!is_terminal(t1[j]));
    }
    let e = new_entry(env, session, pid, program, now);
    let u = t2.push(e);
    assert(u.drop_last() =~= t2);
    assert(find_entry(u, env, session, pid) == t2.len());
    assert(u.remove(t2.len() as int) =~= t2);
}

/// Making room never drops a live entry, and only ever drops entries: every
/// entry after it was there before, and every live entry before is still
/// there after.
pub proof fn law_make_room_keeps_live_entries(t: Seq<EntryView>, c: ProcessConfig, now: nat)
    requires
        keys_distinct(t),
    ensures
        keys_distinct(make_room(t, c, now).1),
        forall|k: int| 0 <= k < t.len() && !is_terminal(#[trigger] t[k]) ==> make_room(t, c, now).1.contains(t[k]),
        forall|k: int| 0 <= k < make_room(t, c, now).1.len() ==> t.contains(#[trigger] make_room(t, c, now).1[k]),
{
    let t1 = evict_expired(t, c.retention_secs as nat, now);
    lemma_evict_expired(t, c.retention_secs as nat, now);
    lemma_evict_oldest(t1, c.max_processes as nat);
    let t2 = make_room(t, c, now).1;
    assert forall|k: int| 0 <= k < t.len() && !is_terminal(#[trigger] t[k]) implies t2.contains(t[k]) by {
        assert(t1.contains(t[k]));
        if t1.len() >= c.max_processes {
            let j = choose|j: int| 0 <= j < t1.len() && t1[j] == t[k];
            assert(!is_terminal(t1[j]));
        }
    }
    assert forall|k: int| 0 <= k < t2.len() implies t.contains(#[trigger] t2[k]) by {
        if t1.len() >= c.max_processes {
            assert(t1.contains(t2[k]));
            let j = choose|j: int| 0 <= j < t1.len() && t1[j] == t2[k];
            assert(t.contains(t1[j]));
        }
    }
}

/// A spawn is refused for lack of room only when the table, after
/// eviction, is full of live entries; when there is room, the table holds
/// fewer than `max_processes` entries.
pub proof fn law_make_room_refuses_only_when_all_live(t: Seq<EntryView>, c: ProcessConfig, now: nat)
    requires
        keys_distinct(t),
    ensures
        make_room(t, c, now).0 <==> make_room(t, c, now).1.len() < c.max_processes,
        !make_room(t, c, now).0 ==> forall|k: int|
            0 <= k < make_room(t, c, now).1.len() ==> !is_terminal(#[trigger] make_room(t, c, now).1[k]),
{
    let t1 = evict_expired(t, c.retention_secs as nat, now);
    lemma_evict_expired(t, c.retention_secs as nat, now);
    lemma_evict_oldest(t1, c.max_processes as nat);
}

/// Oldest-first: every terminal entry that eviction dropped is no younger
/// than any terminal entry it kept, and only terminal entries are dropped.
pub proof fn law_evict_oldest_first(t: Seq<EntryView>, max: nat)
    requires
        keys_distinct(t),
    ensures
        forall|k: int|
            0 <= k < t.len() && !evict_oldest(t, max).contains(#[trigger] t[k]) ==> is_terminal(t[k]),
        forall|k: int, m: int|
            0 <= k < t.len() && 0 <= m < evict_oldest(t, max).len() && !evict_oldest(t, max).contains(#[trigger] t[k])
                && is_terminal(#[trigger] evict_oldest(t, max)[m]) ==> stamp(t[k]) <= stamp(evict_oldest(t, max)[m]),
    decreases t.len(),
{
    lemma_evict_oldest(t, max);
    lemma_oldest_terminal(t);
    if !(t.len() < max || oldest_terminal(t) < 0) {
        let o = oldest_terminal(t);
        let u = t.remove(o);
        lemma_remove_entry(t, o);
        law_evict_oldest_first(u, max);
        lemma_evict_oldest(u, max);
        let r = evict_oldest(u, max);
        assert(r == evict_oldest(t, max));
        assert forall|k: int, m: int|
            0 <= k < t.len() && 0 <= m < r.len() && !r.contains(#[trigger] t[k]) && is_terminal(
                #[trigger] r[m],
            ) implies stamp(t[k]) <= stamp(r[m]) by {
            assert(u.contains(r[m]));
            let j = choose|j: int| 0 <= j < u.len() && u[j] == r[m];
            assert(t.contains(u[j]));
            let jt = choose|jt: int| 0 <= jt < t.len() && t[jt] == u[j];
            assert(stamp(t[o]) <= stamp(t[jt]));
            if k != o {
                assert(u.contains(t[k]));
                let kk = choose|kk: int| 0 <= kk < u.len() && u[kk] == t[k];
                assert(!r.contains(u[kk]));
                assert(stamp(u[kk]) <= stamp(r[m]));
            }
        }
        assert forall|k: int| 0 <= k < t.len() && !r.contains(#[trigger] t[k]) implies is_terminal(t[k]) by {
            if k != o {
                assert(u.contains(t[k]));
                let kk = choose|kk: int| 0 <= kk < u.len() && u[kk] == t[k];
                assert(!r.contains(u[kk]));
            }
        }
    } else {
        assert forall|k: int| 0 <= k < t.len() implies evict_oldest(t, max).contains(#[trigger] t[k]) by {
            assert(evict_oldest(t, max)[k] == t[k]);
        }
    }
}

/// Captured output never exceeds the cap: appending to a stream that is
/// within the cap keeps it within the cap, extends it by a prefix of the
/// chunk, and reports a loss exactly when bytes of a non-empty chunk did not
/// fit.
pub proof fn law_output_stays_under_cap(buf: Seq<u8>, chunk: Seq<u8>, cap: nat)
    requires
        buf.len() <= cap,
        chunk.len() > 0,
    ensures
        append_capped_spec(buf, chunk, cap).0.len() <= cap,
        append_capped_spec(buf, chunk, cap).0.subrange(0, buf.len() as int) == buf,
        append_capped_spec(buf, chunk, cap).0.subrange(buf.len() as int, append_capped_spec(buf, chunk, cap).0.len() as int)
            == chunk.subrange(0, append_capped_spec(buf, chunk, cap).0.len() - buf.len()),
        append_capped_spec(buf, chunk, cap).1 <==> buf.len() + chunk.len() > cap,
        !append_capped_spec(buf, chunk, cap).1 ==> append_capped_spec(buf, chunk, cap).0 == buf + chunk,
{
    let r = append_capped_spec(buf, chunk, cap).0;
    assert(r.subrange(0, buf.len() as int) =~= buf);
    assert(r.subrange(buf.len() as int, r.len() as int) =~= chunk.subrange(0, r.len() - buf.len()));
}


proof fn lemma_session_count_remove(t: Seq<EntryView>, i: int, env: Seq<char>, session: Seq<char>)
    requires
        0 <= i < t.len(),
    ensures
        session_count(t.remove(i), env, session) <= session_count(t, env, session),
    decreases t.len(),
{
    if i < t.len() - 1 {
        let d = t.drop_last();
        lemma_session_count_remove(d, i, env, session);
        assert(t.remove(i).drop_last() =~= d.remove(i));
        assert(t.remove(i).last() == t.last());
    } else {
        assert(t.remove(i) =~= t.drop_last());
    }
}

proof fn lemma_session_count_evictions(t: Seq<EntryView>, c: ProcessConfig, now: nat, env: Seq<char>, session: Seq<char>)
    ensures
        session_count(evict_expired(t, c.retention_secs as nat, now), env, session) <= session_count(t, env, session),
        session_count(evict_oldest(t, c.max_processes as nat), env, session) <= session_count(t, env, session),
    decreases t.len(),
{
    if t.len() > 0 {
        lemma_session_count_evictions(t.drop_last(), c, now, env, session);
        let p = evict_expired(t.drop_last(), c.retention_secs as nat, now);
        assert(p.push(t.last()).drop_last() =~= p);
        lemma_oldest_terminal(t);
        if !(t.len() < c.max_processes || oldest_terminal(t) < 0) {
            let u = t.remove(oldest_terminal(t));
            lemma_session_count_remove(t, oldest_terminal(t), env, session);
            lemma_session_count_evictions(u, c, now, env, session);
        }
    }
}

/// The per-session cap holds after every successful reservation: a session
/// never holds more than `max_processes_per_session` entries because of a
/// spawn.
pub proof fn law_reserve_respects_session_cap(
    t: Seq<EntryView>,
    c: ProcessConfig,
    now: nat,
    env: Seq<char>,
    session: Seq<char>,
    pid: Seq<char>,
    program: Seq<char>,
)
    requires
        session_count(evict_expired(t, c.retention_secs as nat, now), env, session) < c.max_processes_per_session,
    ensures
        session_count(
            make_room(evict_expired(t, c.retention_secs as nat, now), c, now).1.push(
                new_entry(env, session, pid, program, now),
            ),
            env,
            session,
        ) <= c.max_processes_per_session,
{
    let t1 = evict_expired(t, c.retention_secs as nat, now);
    let t2 = make_room(t1, c, now).1;
    lemma_session_count_evictions(t1, c, now, env, session);
    let t1b = evict_expired(t1, c.retention_secs as nat, now);
    lemma_session_count_evictions(t1b, c, now, env, session);
    let p = t2.push(new_entry(env, session, pid, program, now));
    assert(p.drop_last() =~= t2);
}


/// The final state of a child that was reaped: its exit code, or `Failed`
/// when it has none (killed by a signal).
pub fn exit_state(code: Option<i32>) -> (s: ProcessState)
    ensures
        match code {
            Some(c) => s@ == StateView::Exited(c),
            None => s@ == StateView::Failed("process terminated by signal"@),
        },
{
    match code {
        Some(c) => ProcessState::Exited { code: c },
        None => ProcessState::Failed { message: String::from_str("process terminated by signal") },
    }
}

/// The final state of a child that could not be waited for.
pub fn wait_failed_state(error: &str) -> (s: ProcessState)
    ensures
        s@ == StateView::Failed("failed to wait for child: "@ + error@),
{
    let mut m = String::from_str("failed to wait for child: ");
    push_str(&mut m, error);
    ProcessState::Failed { message: m }
}

} // verus!
