//! Request authorization and the client-facing error vocabulary.
//!
//! With no grants table the daemon is permissive: every check passes. With
//! a table it is strict: a caller whose fingerprint is in the table holds
//! exactly its grants; any other caller (and a caller without identity)
//! holds none, and may only ask for the environment info.

use vstd::prelude::*;
use vstd::string::*;

use crate::auth::Caller;
use crate::fs::FsError;
use crate::grants::{
    find_key, grant_views, grants_allow_exec, grants_allow_fs, grants_allow_inspect, grants_allow_terminate,
    spec_allow_exec, spec_allow_fs, spec_allow_inspect, spec_allow_terminate, FsGrantKind, GrantView, GrantsTable,
};
use crate::names::{normalize_program_name, normalized_program};
use crate::process::ProcessError;
use crate::session::SessionError;
use crate::text::{decimal, push_decimal, push_str, str_eq};

verus! {

/// The error categories a client sees.
#[derive(Debug, Clone)]
pub enum RpcError {
    /// The request is malformed or names the wrong environment.
    InvalidRequest(String),
    /// The caller lacks the grant.
    Forbidden(String),
    /// No such file or process (for this caller).
    NotFound(String),
    /// No such session (for this caller).
    SessionNotFound(String),
    /// The session expired.
    SessionExpired(String),
    /// A table is full.
    CapacityExceeded(String),
    /// The daemon's execution policy refuses the program.
    DeniedExecutable(String),
    /// The filesystem state refuses a well-formed request.
    Conflict(String),
    /// The daemon failed.
    InternalError(String),
}

/// A session error as the client sees it: unknown ids and aged-out
/// sessions stay distinct, capacity refusals become `CapacityExceeded`.
pub fn session_error_to_rpc(err: SessionError) -> (e: RpcError)
    ensures
        match err {
            SessionError::InvalidRequest(m) => e == RpcError::InvalidRequest(m),
            SessionError::EnvironmentMismatch(m) => e == RpcError::InvalidRequest(m),
            SessionError::NotFound(m) => e == RpcError::SessionNotFound(m),
            SessionError::Expired(m) => e == RpcError::SessionExpired(m),
            SessionError::TooManySessions(m) => e == RpcError::CapacityExceeded(m),
            SessionError::Internal(m) => e == RpcError::InternalError(m),
        },
{
    match err {
        SessionError::InvalidRequest(m) => RpcError::InvalidRequest(m),
        SessionError::EnvironmentMismatch(m) => RpcError::InvalidRequest(m),
        SessionError::NotFound(m) => RpcError::SessionNotFound(m),
        SessionError::Expired(m) => RpcError::SessionExpired(m),
        SessionError::TooManySessions(m) => RpcError::CapacityExceeded(m),
        SessionError::Internal(m) => RpcError::InternalError(m),
    }
}

/// A process error as the client sees it: policy refusals (deny list or
/// fail-closed) are `DeniedExecutable`, capacity refusals
/// `CapacityExceeded`, OS and daemon failures `InternalError`.
pub fn process_error_to_rpc(err: ProcessError) -> (e: RpcError)
    ensures
        match err {
            ProcessError::InvalidRequest(m) => e == RpcError::InvalidRequest(m),
            ProcessError::EnvironmentMismatch(m) => e == RpcError::InvalidRequest(m),
            ProcessError::DeniedExecutable(m) => e == RpcError::DeniedExecutable(m),
            ProcessError::PolicyDenied(m) => e == RpcError::DeniedExecutable(m),
            ProcessError::TooManyProcesses(m) => e == RpcError::CapacityExceeded(m),
            ProcessError::NotFound(m) => e == RpcError::NotFound(m),
            ProcessError::Io(m) => e == RpcError::InternalError(m),
            ProcessError::Internal(m) => e == RpcError::InternalError(m),
        },
{
    match err {
        ProcessError::InvalidRequest(m) => RpcError::InvalidRequest(m),
        ProcessError::EnvironmentMismatch(m) => RpcError::InvalidRequest(m),
        ProcessError::DeniedExecutable(m) => RpcError::DeniedExecutable(m),
        ProcessError::PolicyDenied(m) => RpcError::DeniedExecutable(m),
        ProcessError::TooManyProcesses(m) => RpcError::CapacityExceeded(m),
        ProcessError::NotFound(m) => RpcError::NotFound(m),
        ProcessError::Io(m) => RpcError::InternalError(m),
        ProcessError::Internal(m) => RpcError::InternalError(m),
    }
}

/// The client-facing form of a filesystem error on the requested `path`.
/// Messages carry the requested (relative) path and the error's own generic
/// text, never a canonical host path; an oversized file is a refusal the
/// client could have avoided (`InvalidRequest`).
pub open spec fn fs_rpc_error(err: FsError, path: Seq<char>) -> RpcErrorView {
    match err {
        FsError::InvalidPath(m) => RpcErrorView::InvalidRequest(path + ": "@ + m@),
        FsError::FilesystemEscape(m) => RpcErrorView::InternalError("filesystem escape blocked: "@ + m@),
        FsError::NotFound(_) => RpcErrorView::NotFound(path + ": not found"@),
        FsError::Conflict(m) => RpcErrorView::Conflict(path + ": "@ + m@),
        FsError::PermissionDenied(_) => RpcErrorView::InternalError(path + ": permission denied"@),
        FsError::NotADirectory(_) => RpcErrorView::InternalError(path + ": not a directory"@),
        FsError::IsADirectory(_) => RpcErrorView::InternalError(path + ": is a directory"@),
        FsError::FileTooLarge { path: p, size, limit } => RpcErrorView::InvalidRequest(
            "file too large: "@ + p@ + " is "@ + decimal(size as nat) + " bytes, limit is "@ + decimal(limit as nat)
                + " bytes"@,
        ),
        FsError::Io(m) => RpcErrorView::InternalError(path + ": I/O error: "@ + m@),
    }
}

/// The content of an RPC error.
pub enum RpcErrorView {
    InvalidRequest(Seq<char>),
    Forbidden(Seq<char>),
    NotFound(Seq<char>),
    SessionNotFound(Seq<char>),
    SessionExpired(Seq<char>),
    CapacityExceeded(Seq<char>),
    DeniedExecutable(Seq<char>),
    Conflict(Seq<char>),
    InternalError(Seq<char>),
}

impl View for RpcError {
    type V = RpcErrorView;

    open spec fn view(&self) -> RpcErrorView {
        match self {
            RpcError::InvalidRequest(m) => RpcErrorView::InvalidRequest(m@),
            RpcError::Forbidden(m) => RpcErrorView::Forbidden(m@),
            RpcError::NotFound(m) => RpcErrorView::NotFound(m@),
            RpcError::SessionNotFound(m) => RpcErrorView::SessionNotFound(m@),
            RpcError::SessionExpired(m) => RpcErrorView::SessionExpired(m@),
            RpcError::CapacityExceeded(m) => RpcErrorView::CapacityExceeded(m@),
            RpcError::DeniedExecutable(m) => RpcErrorView::DeniedExecutable(m@),
            RpcError::Conflict(m) => RpcErrorView::Conflict(m@),
            RpcError::InternalError(m) => RpcErrorView::InternalError(m@),
        }
    }
}

fn prefixed(path: &str, sep: &str, m: &str) -> (s: String)
    ensures
        s@ == path@ + sep@ + m@,
{
    let mut s = String::new();
    push_str(&mut s, path);
    push_str(&mut s, sep);
    push_str(&mut s, m);
    s
}

/// Map a filesystem error on `path` to what the client sees.
pub fn fs_error_to_rpc(err: FsError, path: &str) -> (e: RpcError)
    ensures
        e@ == fs_rpc_error(err, path@),
{
    proof {
        reveal_strlit("");
    }
    assert(path@ + ": not found"@ + ""@ =~= path@ + ": not found"@);
    assert(path@ + ": permission denied"@ + ""@ =~= path@ + ": permission denied"@);
    assert(path@ + ": not a directory"@ + ""@ =~= path@ + ": not a directory"@);
    assert(path@ + ": is a directory"@ + ""@ =~= path@ + ": is a directory"@);
    match err {
        FsError::InvalidPath(m) => RpcError::InvalidRequest(prefixed(path, ": ", m.as_str())),
        FsError::FilesystemEscape(m) => {
            let mut s = String::from_str("filesystem escape blocked: ");
            push_str(&mut s, m.as_str());
            RpcError::InternalError(s)
        },
        FsError::NotFound(_) => RpcError::NotFound(prefixed(path, ": not found", "")),
        FsError::Conflict(m) => RpcError::Conflict(prefixed(path, ": ", m.as_str())),
        FsError::PermissionDenied(_) => RpcError::InternalError(prefixed(path, ": permission denied", "")),
        FsError::NotADirectory(_) => RpcError::InternalError(prefixed(path, ": not a directory", "")),
        FsError::IsADirectory(_) => RpcError::InternalError(prefixed(path, ": is a directory", "")),
        FsError::FileTooLarge { path: p, size, limit } => {
            let mut s = String::from_str("file too large: ");
            push_str(&mut s, p.as_str());
            push_str(&mut s, " is ");
            push_decimal(&mut s, size);
            push_str(&mut s, " bytes, limit is ");
            push_decimal(&mut s, limit);
            push_str(&mut s, " bytes");
            RpcError::InvalidRequest(s)
        },
        FsError::Io(m) => RpcError::InternalError(prefixed(path, ": I/O error: ", m.as_str())),
    }
}

/// The identity a log line names.
pub open spec fn who(caller: Option<Caller>) -> Seq<char> {
    match caller {
        Some(c) => c.fingerprint@,
        None => "<no-identity>"@,
    }
}

/// The server-side forensics line for one authorization decision.
pub open spec fn authz_line(caller: Option<Caller>, allowed: bool, scope: Seq<char>, detail: Seq<char>) -> Seq<char> {
    (if allowed {
        "authz allow "@
    } else {
        "authz deny "@
    }) + scope + " for "@ + who(caller) + ": "@ + detail
}

/// The refusal an unknown principal gets for everything but the
/// environment info.
pub open spec fn unknown_principal_message() -> Seq<char> {
    "unknown principal: no grants for this client identity (GetEnvironmentInfo only)"@
}

/// The log line of a filesystem grant check.
pub open spec fn fs_check_line(
    table: Option<Seq<(Seq<char>, Seq<GrantView>)>>,
    caller: Option<Caller>,
    kind: FsGrantKind,
    rel: Seq<char>,
) -> Seq<char> {
    let allowed = match effective_grants(table, caller_fp(caller)) {
        None => true,
        Some(gs) => spec_allow_fs(gs, kind, rel),
    };
    authz_line(caller, allowed, fs_scope(kind), if table is None {
        "permissive: '"@ + rel + "'"@
    } else if allowed {
        "granted scope covers '"@ + rel + "'"@
    } else {
        "no "@ + fs_scope(kind) + " grant covers '"@ + rel + "'"@
    })
}

/// The log line of an execute grant check.
pub open spec fn exec_check_line(
    table: Option<Seq<(Seq<char>, Seq<GrantView>)>>,
    caller: Option<Caller>,
    program: Seq<char>,
) -> Seq<char> {
    let allowed = match effective_grants(table, caller_fp(caller)) {
        None => true,
        Some(gs) => spec_allow_exec(gs, program),
    };
    authz_line(caller, allowed, "process.execute"@, if table is None {
        "permissive: '"@ + program + "'"@
    } else if allowed {
        "allowlist covers '"@ + normalized_program(program) + "'"@
    } else {
        "'"@ + normalized_program(program) + "' not in process.execute allowlist"@
    })
}

/// The log line of an inspect grant check.
pub open spec fn inspect_check_line(table: Option<Seq<(Seq<char>, Seq<GrantView>)>>, caller: Option<Caller>) -> Seq<
    char,
> {
    let allowed = match effective_grants(table, caller_fp(caller)) {
        None => true,
        Some(gs) => spec_allow_inspect(gs),
    };
    authz_line(caller, allowed, "process.inspect"@, if table is None {
        "permissive"@
    } else if allowed {
        "process_inspect grant present"@
    } else {
        "no process_inspect grant"@
    })
}

/// The log line of a terminate grant check.
pub open spec fn terminate_check_line(table: Option<Seq<(Seq<char>, Seq<GrantView>)>>, caller: Option<Caller>) -> Seq<
    char,
> {
    let allowed = match effective_grants(table, caller_fp(caller)) {
        None => true,
        Some(gs) => spec_allow_terminate(gs),
    };
    authz_line(caller, allowed, "process.terminate"@, if table is None {
        "permissive"@
    } else if allowed {
        "process_terminate grant present"@
    } else {
        "no process_terminate grant"@
    })
}

/// The server-side forensics line for one authorization decision: the
/// scope, who asked, and the relative path, program or denial reason. It
/// is for the daemon's own log only, never for a client.
pub fn log_authz_decision(caller: Option<&Caller>, allowed: bool, scope: &str, detail: &str) -> (line: String)
    ensures
        line@ == authz_line(
            match caller {
                Some(c) => Some(*c),
                None => None,
            },
            allowed,
            scope@,
            detail@,
        ),
{
    let mut line = if allowed {
        String::from_str("authz allow ")
    } else {
        String::from_str("authz deny ")
    };
    push_str(&mut line, scope);
    push_str(&mut line, " for ");
    match caller {
        Some(c) => push_str(&mut line, c.fingerprint.as_str()),
        None => push_str(&mut line, "<no-identity>"),
    }
    push_str(&mut line, ": ");
    push_str(&mut line, detail);
    line
}

/// The caller's fingerprint, if it has an identity.
pub open spec fn caller_fp(caller: Option<Caller>) -> Option<Seq<char>> {
    match caller {
        Some(c) => Some(c.fingerprint@),
        None => None,
    }
}

/// The grants that apply to a caller: `None` in permissive mode (no table:
/// unrestricted); in strict mode its grants when its fingerprint is in the
/// table, and no grant otherwise.
pub open spec fn effective_grants(
    table: Option<Seq<(Seq<char>, Seq<GrantView>)>>,
    caller: Option<Seq<char>>,
) -> Option<Seq<GrantView>> {
    match table {
        None => None,
        Some(t) => match caller {
            Some(fp) => if find_key(t, fp) >= 0 {
                Some(t[find_key(t, fp)].1)
            } else {
                Some(Seq::empty())
            },
            None => Some(Seq::empty()),
        },
    }
}

/// The caller is a known principal of a strict table.
pub open spec fn known_principal(table: Option<Seq<(Seq<char>, Seq<GrantView>)>>, caller: Option<Seq<char>>) -> bool {
    match (table, caller) {
        (Some(t), Some(fp)) => find_key(t, fp) >= 0,
        _ => false,
    }
}

/// The scope name of a filesystem grant kind.
pub open spec fn fs_scope(kind: FsGrantKind) -> Seq<char> {
    match kind {
        FsGrantKind::Read => "filesystem.read"@,
        FsGrantKind::Write => "filesystem.write"@,
        FsGrantKind::List => "filesystem.list"@,
    }
}

/// The authorization state: the grants table, if any.
pub struct Authz {
    grants: Option<GrantsTable>,
}

impl Authz {
    /// The grants table's content (`None`: permissive).
    pub closed spec fn table(&self) -> Option<Seq<(Seq<char>, Seq<GrantView>)>> {
        match self.grants {
            Some(t) => Some(t@),
            None => None,
        }
    }

    /// Permissive authorization (no grants table).
    pub fn permissive() -> (a: Authz)
        ensures
            a.table() is None,
    {
        Authz { grants: None }
    }

    /// Strict authorization over a grants table.
    pub fn strict(table: GrantsTable) -> (a: Authz)
        ensures
            a.table() == Some(table@),
    {
        Authz { grants: Some(table) }
    }

    /// Whether a grants table is configured.
    pub fn is_strict(&self) -> (r: bool)
        ensures
            r == (self.table() is Some),
    {
        self.grants.is_some()
    }

    /// The strict-mode gate on every operation but the environment info:
    /// unknown principals (and callers without identity) are `Forbidden`;
    /// permissive mode always passes.
    pub fn deny_unknown_principal(&self, caller: Option<&Caller>) -> (r: Result<(), RpcError>)
        ensures
            ({
                let fp = caller_fp(
                    match caller {
                        Some(c) => Some(*c),
                        None => None,
                    },
                );
                if self.table() is None || known_principal(self.table(), fp) {
                    r is Ok
                } else {
                    r matches Err(RpcError::Forbidden(m)) && m@ == unknown_principal_message()
                }
            }),
    {
        match &self.grants {
            None => Ok(()),
            Some(t) => {
                let known = match caller {
                    Some(c) => t.is_known(c.fingerprint.as_str()),
                    None => false,
                };
                if known {
                    Ok(())
                } else {
                    Err(RpcError::Forbidden(String::from_str(
                        "unknown principal: no grants for this client identity (GetEnvironmentInfo only)",
                    )))
                }
            },
        }
    }

    /// Whether the caller's effective grants satisfy `allowed` (permissive:
    /// always), computing the grant check only in strict mode.
    fn decide_fs(&self, caller: Option<&Caller>, kind: FsGrantKind, rel: &str) -> (r: bool)
        ensures
            r == match effective_grants(
                self.table(),
                caller_fp(
                    match caller {
                        Some(c) => Some(*c),
                        None => None,
                    },
                ),
            ) {
                None => true,
                Some(gs) => spec_allow_fs(gs, kind, rel@),
            },
    {
        match &self.grants {
            None => true,
            Some(t) => match caller {
                None => false,
                Some(c) => match t.grants_for(c.fingerprint.as_str()) {
                    Some(gs) => grants_allow_fs(gs, kind, rel),
                    None => false,
                },
            },
        }
    }

    /// Filesystem grant check on an already-relativized path. The denial
    /// names the relative path only. Returns the decision and its log line.
    pub fn check_fs_grant(&self, caller: Option<&Caller>, kind: FsGrantKind, rel: &str) -> (r: (
        Result<(), RpcError>,
        String,
    ))
        ensures
            ({
                let c = match caller {
                    Some(c) => Some(*c),
                    None => None,
                };
                let allowed = match effective_grants(self.table(), caller_fp(c)) {
                    None => true,
                    Some(gs) => spec_allow_fs(gs, kind, rel@),
                };
                &&& allowed ==> r.0 is Ok
                &&& !allowed ==> (r.0 matches Err(RpcError::Forbidden(m)) && m@ == fs_scope(kind) + " denied for '"@
                    + rel@ + "'"@)
                &&& r.1@ == fs_check_line(self.table(), c, kind, rel@)
            }),
    {
        let scope = match kind {
            FsGrantKind::Read => "filesystem.read",
            FsGrantKind::Write => "filesystem.write",
            FsGrantKind::List => "filesystem.list",
        };
        proof {
            reveal_strlit("filesystem.read");
            reveal_strlit("filesystem.write");
            reveal_strlit("filesystem.list");
        }
        assert(scope@ == fs_scope(kind));
        let allowed = self.decide_fs(caller, kind, rel);
        let mut detail = String::new();
        if self.grants.is_none() {
            push_str(&mut detail, "permissive: '");
        } else if allowed {
            push_str(&mut detail, "granted scope covers '");
        } else {
            push_str(&mut detail, "no ");
            push_str(&mut detail, scope);
            push_str(&mut detail, " grant covers '");
        }
        push_str(&mut detail, rel);
        push_str(&mut detail, "'");
        let line = log_authz_decision(caller, allowed, scope, detail.as_str());
        if allowed {
            (Ok(()), line)
        } else {
            let mut m = String::new();
            push_str(&mut m, scope);
            push_str(&mut m, " denied for '");
            push_str(&mut m, rel);
            push_str(&mut m, "'");
            (Err(RpcError::Forbidden(m)), line)
        }
    }

    /// Execute grant check (normalized-name match), made after the daemon's
    /// own execution policy. Returns the decision and its log line.
    pub fn check_exec_grant(&self, caller: Option<&Caller>, program: &str) -> (r: (Result<(), RpcError>, String))
        ensures
            ({
                let c = match caller {
                    Some(c) => Some(*c),
                    None => None,
                };
                let allowed = match effective_grants(self.table(), caller_fp(c)) {
                    None => true,
                    Some(gs) => spec_allow_exec(gs, program@),
                };
                &&& allowed ==> r.0 is Ok
                &&& !allowed ==> (r.0 matches Err(RpcError::Forbidden(m)) && m@ == "process.execute denied for '"@
                    + normalized_program(program@) + "'"@)
                &&& r.1@ == exec_check_line(self.table(), c, program@)
            }),
    {
        let normalized = normalize_program_name(program);
        let allowed = match &self.grants {
            None => true,
            Some(t) => match caller {
                None => false,
                Some(c) => match t.grants_for(c.fingerprint.as_str()) {
                    Some(gs) => grants_allow_exec(gs, program),
                    None => false,
                },
            },
        };
        let mut detail = String::new();
        if self.grants.is_none() {
            push_str(&mut detail, "permissive: '");
            push_str(&mut detail, program);
            push_str(&mut detail, "'");
        } else if allowed {
            push_str(&mut detail, "allowlist covers '");
            push_str(&mut detail, normalized.as_str());
            push_str(&mut detail, "'");
        } else {
            push_str(&mut detail, "'");
            push_str(&mut detail, normalized.as_str());
            push_str(&mut detail, "' not in process.execute allowlist");
        }
        let line = log_authz_decision(caller, allowed, "process.execute", detail.as_str());
        if allowed {
            (Ok(()), line)
        } else {
            let mut m = String::from_str("process.execute denied for '");
            push_str(&mut m, normalized.as_str());
            push_str(&mut m, "'");
            (Err(RpcError::Forbidden(m)), line)
        }
    }

    /// Inspect grant check (gates process status). Returns the decision and
    /// its log line.
    pub fn check_inspect_grant(&self, caller: Option<&Caller>) -> (r: (Result<(), RpcError>, String))
        ensures
            ({
                let c = match caller {
                    Some(c) => Some(*c),
                    None => None,
                };
                let allowed = match effective_grants(self.table(), caller_fp(c)) {
                    None => true,
                    Some(gs) => spec_allow_inspect(gs),
                };
                &&& allowed ==> r.0 is Ok
                &&& !allowed ==> (r.0 matches Err(RpcError::Forbidden(m)) && m@ == "process.inspect denied"@)
                &&& r.1@ == inspect_check_line(self.table(), c)
            }),
    {
        let allowed = match &self.grants {
            None => true,
            Some(t) => match caller {
                None => false,
                Some(c) => match t.grants_for(c.fingerprint.as_str()) {
                    Some(gs) => grants_allow_inspect(gs),
                    None => false,
                },
            },
        };
        let detail = if self.grants.is_none() {
            "permissive"
        } else if allowed {
            "process_inspect grant present"
        } else {
            "no process_inspect grant"
        };
        let line = log_authz_decision(caller, allowed, "process.inspect", detail);
        if allowed {
            (Ok(()), line)
        } else {
            (Err(RpcError::Forbidden(String::from_str("process.inspect denied"))), line)
        }
    }

    /// Terminate grant check (gates process termination and waits).
    /// Returns the decision and its log line.
    pub fn check_terminate_grant(&self, caller: Option<&Caller>) -> (r: (Result<(), RpcError>, String))
        ensures
            ({
                let c = match caller {
                    Some(c) => Some(*c),
                    None => None,
                };
                let allowed = match effective_grants(self.table(), caller_fp(c)) {
                    None => true,
                    Some(gs) => spec_allow_terminate(gs),
                };
                &&& allowed ==> r.0 is Ok
                &&& !allowed ==> (r.0 matches Err(RpcError::Forbidden(m)) && m@ == "process.terminate denied"@)
                &&& r.1@ == terminate_check_line(self.table(), c)
            }),
    {
        let allowed = match &self.grants {
            None => true,
            Some(t) => match caller {
                None => false,
                Some(c) => match t.grants_for(c.fingerprint.as_str()) {
                    Some(gs) => grants_allow_terminate(gs),
                    None => false,
                },
            },
        };
        let detail = if self.grants.is_none() {
            "permissive"
        } else if allowed {
            "process_terminate grant present"
        } else {
            "no process_terminate grant"
        };
        let line = log_authz_decision(caller, allowed, "process.terminate", detail);
        if allowed {
            (Ok(()), line)
        } else {
            (Err(RpcError::Forbidden(String::from_str("process.terminate denied"))), line)
        }
    }
}

/// In strict mode a known principal holds exactly the grants the table
/// lists for its fingerprint.
pub proof fn law_known_principals_hold_their_grants(
    table: Seq<(Seq<char>, Seq<GrantView>)>,
    fp: Seq<char>,
)
    requires
        find_key(table, fp) >= 0,
    ensures
        known_principal(Some(table), Some(fp)),
        effective_grants(Some(table), Some(fp)) == Some(table[find_key(table, fp)].1),
{
}


/// The compact error sent in place of a response too large to transmit.
pub open spec fn too_large_message(size: nat, max: nat) -> Seq<char> {
    "response too large to transmit: "@ + decimal(size) + " bytes exceeds "@ + decimal(max)
        + "; narrow the command or read smaller ranges"@
}

/// The error that replaces a response of `size` bytes over the `max`
/// transmit limit.
pub fn too_large_fallback(size: usize, max: usize) -> (e: RpcError)
    ensures
        e@ == RpcErrorView::InternalError(too_large_message(size as nat, max as nat)),
{
    let mut m = String::from_str("response too large to transmit: ");
    push_decimal(&mut m, size as u64);
    push_str(&mut m, " bytes exceeds ");
    push_decimal(&mut m, max as u64);
    push_str(&mut m, "; narrow the command or read smaller ranges");
    RpcError::InternalError(m)
}

} // verus!
