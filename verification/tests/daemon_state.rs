use are_daemon::auth::Caller;
use are_daemon::authz::{
    fs_error_to_rpc, log_authz_decision, process_error_to_rpc, session_error_to_rpc, too_large_fallback, RpcError,
};
use are_daemon::daemon::{
    advertised_capabilities, build_daemon_state, detect_platform, validate_path_request, validate_rename_request,
    validate_write_request, Capability, DaemonConfig, DaemonError, DaemonState, Platform,
};
use are_daemon::fs::{Canonical, FilesystemBackend, FilesystemConfig, FsError, ResolveProbe};
use are_daemon::grants::{FsGrantKind, GrantsTable, RawPrincipalGrants};
use are_daemon::process::{ExecuteRequest, ProcessConfig, ProcessError, ProcessManager};
use are_daemon::session::{
    CreateSessionRequest, SessionConfig, SessionError, SessionManager, WorkdirStatus, DEFAULT_MAX_PROCESSES_PER_SESSION,
    DEFAULT_MAX_SESSIONS, DEFAULT_SESSION_IDLE_TIMEOUT_SECS, DEFAULT_SESSION_MAX_LIFETIME_SECS,
};

const ENV: &str = "test-env";
const ROOT: &str = "/tmp/are-root";
const T0: u64 = 1_700_000_000;
const FP_A: &str = "blake3:aaaaaaaaaaaaaaaaaaaaaaaaaaaaaaaaaaaaaaaaaaaaaaaaaaaaaaaaaaaaaaaa";

fn test_state() -> DaemonState {
    DaemonState::new(
        ENV.to_string(),
        "test-host".into(),
        "0.1.0".into(),
        vec![Capability::FilesystemRead, Capability::ProcessExecute],
        Platform::Debian,
    )
}

fn fs() -> FilesystemBackend {
    FilesystemBackend::new(FilesystemConfig::new(&[(ROOT.to_string(), Ok(ROOT.to_string()))]).unwrap())
}

fn fs_state() -> DaemonState {
    DaemonState::with_fs(
        ENV.to_string(),
        "test-host".into(),
        "0.1.0".into(),
        vec![Capability::FilesystemRead, Capability::FilesystemList, Capability::FilesystemWrite],
        Platform::Debian,
        fs(),
    )
}

fn proc_state() -> (DaemonState, String) {
    let proc = ProcessManager::new(ENV.to_string(), ProcessConfig { permissive: true, ..ProcessConfig::default() });
    let sessions = SessionManager::new(ENV.to_string(), SessionConfig::default());
    let mut state = DaemonState::with_fs(
        ENV.to_string(),
        "test-host".into(),
        "0.1.0".into(),
        vec![Capability::ProcessExecute, Capability::ProcessInspect, Capability::ProcessTerminate],
        Platform::Debian,
        fs(),
    )
    .with_proc(proc)
    .with_sess(sessions);
    let req = CreateSessionRequest { environment_id: ENV.into(), working_directory: None, env_vars: Vec::new() };
    let session = state.create_session(None, &req, &WorkdirStatus::Directory, T0).unwrap();
    (state, session.session_id)
}

fn probe_found(p: &str) -> Vec<ResolveProbe> {
    vec![ResolveProbe { target: Canonical::Found(p.to_string()), parent: Canonical::Missing }]
}

fn exec_req(env: &str, session: &str, program: &str) -> ExecuteRequest {
    ExecuteRequest {
        environment_id: env.into(),
        session_id: session.into(),
        program: program.into(),
        args: vec![],
        working_directory: ".".into(),
        env_vars: Vec::new(),
    }
}

#[test]
fn handle_get_environment_info_matching_env() {
    let state = test_state();
    let info = state.environment_info(None, ENV, "linux").unwrap();
    assert_eq!(info.environment_id, "test-env");
    assert_eq!(info.machine_name, "test-host");
    assert_eq!(info.daemon_version, "0.1.0");
    assert_eq!(info.platform, Platform::Debian);
    assert!(info.advertised_capabilities.contains(&Capability::FilesystemRead));
    assert!(info.advertised_capabilities.contains(&Capability::ProcessExecute));
    assert_eq!(info.caller_fingerprint, None);
    let caller = Caller::new(FP_A.into());
    let info = state.environment_info(Some(&caller), ENV, "linux").unwrap();
    assert_eq!(info.caller_fingerprint.as_deref(), Some(FP_A));
}

#[test]
fn handle_get_environment_info_wrong_env() {
    let state = test_state();
    match state.environment_info(None, "wrong-env", "linux") {
        Err(RpcError::InvalidRequest(msg)) => assert!(msg.contains("does not match")),
        other => panic!("expected InvalidRequest, got {other:?}"),
    }
}

fn read_like(state: &DaemonState, env: &str, kind: FsGrantKind, path: &str) -> Result<String, RpcError> {
    state.authorize_path(None, env, path, kind, true, &probe_found("/tmp/are-root/test.txt"), &[]).0
}

#[test]
fn handle_read_file_without_fs_backend() {
    match read_like(&test_state(), ENV, FsGrantKind::Read, "test.txt") {
        Err(RpcError::InternalError(msg)) => assert!(msg.contains("filesystem backend not configured")),
        other => panic!("expected InternalError, got {other:?}"),
    }
}

#[test]
fn handle_list_directory_without_fs_backend() {
    match read_like(&test_state(), ENV, FsGrantKind::List, ".") {
        Err(RpcError::InternalError(msg)) => assert!(msg.contains("filesystem backend not configured")),
        other => panic!("expected InternalError, got {other:?}"),
    }
}

#[test]
fn handle_get_file_metadata_without_fs_backend() {
    match read_like(&test_state(), ENV, FsGrantKind::Read, "test.txt") {
        Err(RpcError::InternalError(msg)) => assert!(msg.contains("filesystem backend not configured")),
        other => panic!("expected InternalError, got {other:?}"),
    }
}

#[test]
fn handle_read_file_wrong_env() {
    match read_like(&test_state(), "wrong-env", FsGrantKind::Read, "test.txt") {
        Err(RpcError::InvalidRequest(msg)) => assert!(msg.contains("does not match")),
        other => panic!("expected InvalidRequest, got {other:?}"),
    }
}

#[test]
fn handle_list_directory_wrong_env() {
    match read_like(&test_state(), "wrong-env", FsGrantKind::List, ".") {
        Err(RpcError::InvalidRequest(msg)) => assert!(msg.contains("does not match")),
        other => panic!("expected InvalidRequest, got {other:?}"),
    }
}

#[test]
fn handle_get_file_metadata_wrong_env() {
    match read_like(&test_state(), "wrong-env", FsGrantKind::Read, "test.txt") {
        Err(RpcError::InvalidRequest(msg)) => assert!(msg.contains("does not match")),
        other => panic!("expected InvalidRequest, got {other:?}"),
    }
}

/// The write-side checks in the order the daemon makes them.
fn write_op(state: &DaemonState, env: &str, op: &str) -> Result<(), RpcError> {
    match op {
        "write" => {
            validate_write_request("a.txt", None)?;
            state
                .authorize_path(None, env, "a.txt", FsGrantKind::Write, true, &probe_found("/tmp/are-root/a.txt"), &[])
                .0
                .map(|_| ())
        }
        "mkdir" => state.authorize_create_directory(None, env, "a").0,
        "rename" => {
            validate_rename_request("a", "b")?;
            let parents = [Canonical::Found(ROOT.into())];
            state.authorize_path(None, env, "a", FsGrantKind::Write, false, &[], &parents).0?;
            state.authorize_path(None, env, "b", FsGrantKind::Write, false, &[], &parents).0.map(|_| ())
        }
        _ => {
            validate_path_request("a")?;
            let parents = [Canonical::Found(ROOT.into())];
            state.authorize_path(None, env, "a", FsGrantKind::Write, false, &[], &parents).0.map(|_| ())
        }
    }
}

#[test]
fn handle_write_ops_without_fs_backend() {
    let state = test_state();
    for op in ["write", "mkdir", "rename", "delete"] {
        match write_op(&state, ENV, op) {
            Err(RpcError::InternalError(msg)) => assert!(msg.contains("filesystem backend not configured"), "{msg}"),
            other => panic!("expected InternalError, got {other:?}"),
        }
    }
}

#[test]
fn handle_write_ops_wrong_env_rejected_first() {
    let state = fs_state();
    for op in ["write", "mkdir", "rename", "delete"] {
        match write_op(&state, "wrong-env", op) {
            Err(RpcError::InvalidRequest(msg)) => assert!(msg.contains("does not match")),
            other => panic!("expected InvalidRequest, got {other:?}"),
        }
    }
    // With the right environment every check passes in permissive mode.
    for op in ["write", "mkdir", "rename", "delete"] {
        assert!(write_op(&state, ENV, op).is_ok(), "{op}");
    }
}

#[test]
fn handle_write_rejects_malformed_expected_hash() {
    assert!(matches!(validate_write_request("a.txt", Some("not-a-hash")), Err(RpcError::InvalidRequest(_))));
    let good = "A".repeat(64);
    assert!(validate_write_request("a.txt", Some(&good)).is_ok());
}

#[test]
fn handle_rename_rejects_src_eq_dst() {
    assert!(matches!(validate_rename_request("a", "a"), Err(RpcError::InvalidRequest(_))));
}

#[test]
fn handle_execute_wrong_env_rejected_first() {
    let (mut state, session) = proc_state();
    match state.execute_prepare(None, &exec_req("wrong-env", &session, "shutdown"), T0).0 {
        Err(RpcError::InvalidRequest(msg)) => assert!(msg.contains("does not match")),
        other => panic!("expected InvalidRequest, got {other:?}"),
    }
}

#[test]
fn handle_execute_without_proc_backend() {
    let mut state = test_state();
    match state.execute_prepare(None, &exec_req(ENV, "sess-1", "cargo"), T0).0 {
        Err(RpcError::InternalError(msg)) => assert!(msg.contains("process backend not configured")),
        other => panic!("expected InternalError, got {other:?}"),
    }
}

#[test]
fn handle_process_status_without_proc_backend() {
    let mut state = test_state();
    let r = state.process_status(None, ENV, "sess-1", "proc-000001", T0).0;
    assert!(matches!(r, Err(RpcError::InternalError(_))));
}

#[test]
fn handle_execute_denied_maps_to_denied_executable() {
    let (mut state, session) = proc_state();
    match state.execute_prepare(None, &exec_req(ENV, &session, "shutdown"), T0).0 {
        Err(RpcError::DeniedExecutable(msg)) => assert!(msg.contains("shutdown")),
        other => panic!("expected DeniedExecutable, got {other:?}"),
    }
}

#[test]
fn handle_process_status_unknown_id_maps_to_not_found() {
    let (mut state, session) = proc_state();
    let r = state.process_status(None, ENV, &session, "proc-999999", T0).0;
    assert!(matches!(r, Err(RpcError::NotFound(_))));
}

#[test]
fn handle_wait_rejects_timeout_over_bound() {
    let (mut state, session) = proc_state();
    let r = state
        .wait_prepare(None, ENV, &session, "proc-999999", are_daemon::process::MAX_WAIT_TIMEOUT_SECS + 1, T0)
        .0;
    assert!(matches!(r, Err(RpcError::InvalidRequest(_))));
}

#[test]
fn handle_wait_rejects_zero_timeout() {
    let (mut state, session) = proc_state();
    let r = state.wait_prepare(None, ENV, &session, "proc-999999", 0, T0).0;
    assert!(matches!(r, Err(RpcError::InvalidRequest(_))));
}

#[test]
fn execute_reserve_status_wait_flow() {
    let (mut state, session) = proc_state();
    let req = exec_req(ENV, &session, "/bin/echo");
    let plan = state.execute_prepare(None, &req, T0).0.unwrap();
    assert_eq!(plan.working_directory, ".");
    let pid = state.execute_reserve(&req, &WorkdirStatus::Directory, T0).unwrap();
    state.append_output(ENV, &session, &pid, are_daemon::proc_table::StreamKind::Stdout, b"hello\n");
    state.finish_process(ENV, &session, &pid, are_daemon::proc_table::ProcessState::Exited { code: 0 }, T0 + 1);
    assert!(state.wait_prepare(None, ENV, &session, &pid, 10, T0 + 1).0.is_ok());
    let w = state.wait_poll(ENV, &session, &pid, false).unwrap().unwrap();
    assert_eq!(w.stdout, b"hello\n");
    assert_eq!(w.exit_code, Some(0));
    assert!(!w.timed_out);
    let st = state.process_status(None, ENV, &session, &pid, T0 + 1).0.unwrap();
    assert_eq!(st, are_daemon::proc_table::ProcessState::Exited { code: 0 });
    assert!(!state.terminate_process(None, ENV, &session, &pid, T0 + 1).0.unwrap());
    assert!(matches!(
        state.execute_reserve(&req, &WorkdirStatus::Missing, T0),
        Err(RpcError::InvalidRequest(_))
    ));
}

#[test]
fn terminate_session_kills_then_removes() {
    let (mut state, session) = proc_state();
    let req = exec_req(ENV, &session, "/bin/sleep");
    state.execute_prepare(None, &req, T0).0.unwrap();
    let pid = state.execute_reserve(&req, &WorkdirStatus::Directory, T0).unwrap();
    assert_eq!(state.terminate_session(None, ENV, &session, T0).unwrap(), 1);
    assert!(state.kill_requested(ENV, &session, &pid));
    assert!(matches!(state.get_session(None, ENV, &session, T0), Err(RpcError::SessionNotFound(_))));
}

#[test]
fn expired_session_processes_are_killed_on_touch() {
    let (mut state, session) = proc_state();
    let req = exec_req(ENV, &session, "/bin/sleep");
    state.execute_prepare(None, &req, T0).0.unwrap();
    let pid = state.execute_reserve(&req, &WorkdirStatus::Directory, T0).unwrap();
    let later = T0 + DEFAULT_SESSION_IDLE_TIMEOUT_SECS + 1;
    assert!(matches!(state.get_session(None, ENV, &session, later), Err(RpcError::SessionExpired(_))));
    assert!(state.kill_requested(ENV, &session, &pid));
}

fn strict_state() -> DaemonState {
    let raws = vec![(
        FP_A.to_string(),
        RawPrincipalGrants { filesystem_read: vec!["logs".into()], ..RawPrincipalGrants::default() },
    )];
    fs_state().with_grants(GrantsTable::from_raw(&raws).unwrap())
}

#[test]
fn strict_mode_gates_unknown_principals_and_scopes() {
    let mut state = strict_state();
    let known = Caller::new(FP_A.into());
    let unknown = Caller::new("blake3:cccc".into());
    // The environment info stays open to everyone.
    assert!(state.environment_info(Some(&unknown), ENV, "linux").is_ok());
    let r = state.authorize_path(Some(&unknown), ENV, "logs/x", FsGrantKind::Read, true, &probe_found("/tmp/are-root/logs/x"), &[]);
    assert!(matches!(r.0, Err(RpcError::Forbidden(_))));
    let r = state.authorize_path(Some(&known), ENV, "logs/x", FsGrantKind::Read, true, &probe_found("/tmp/are-root/logs/x"), &[]);
    assert_eq!(r.0.unwrap(), "/tmp/are-root/logs/x");
    assert_eq!(r.1, vec![format!("authz allow filesystem.read for {FP_A}: granted scope covers 'logs/x'")]);
    let r = state.authorize_path(Some(&known), ENV, "logs2/x", FsGrantKind::Read, true, &probe_found("/tmp/are-root/logs2/x"), &[]);
    match r.0 {
        Err(RpcError::Forbidden(m)) => assert_eq!(m, "filesystem.read denied for 'logs2/x'"),
        other => panic!("expected Forbidden, got {other:?}"),
    }
    let r = state.authorize_path(Some(&known), ENV, "logs/x", FsGrantKind::Write, true, &probe_found("/tmp/are-root/logs/x"), &[]);
    assert!(matches!(r.0, Err(RpcError::Forbidden(_))));
    // Sessions: unknown principals are refused before anything else.
    let req = CreateSessionRequest { environment_id: ENV.into(), working_directory: None, env_vars: Vec::new() };
    assert!(matches!(state.create_session(Some(&unknown), &req, &WorkdirStatus::Directory, T0), Err(RpcError::Forbidden(_))));
    assert!(matches!(state.create_session(None, &req, &WorkdirStatus::Directory, T0), Err(RpcError::Forbidden(_))));
}

#[test]
fn error_mappings_keep_categories() {
    assert!(matches!(session_error_to_rpc(SessionError::NotFound("x".into())), RpcError::SessionNotFound(_)));
    assert!(matches!(session_error_to_rpc(SessionError::Expired("x".into())), RpcError::SessionExpired(_)));
    assert!(matches!(session_error_to_rpc(SessionError::TooManySessions("x".into())), RpcError::CapacityExceeded(_)));
    assert!(matches!(session_error_to_rpc(SessionError::EnvironmentMismatch("x".into())), RpcError::InvalidRequest(_)));
    assert!(matches!(process_error_to_rpc(ProcessError::PolicyDenied("x".into())), RpcError::DeniedExecutable(_)));
    assert!(matches!(process_error_to_rpc(ProcessError::Io("x".into())), RpcError::InternalError(_)));
    assert!(matches!(process_error_to_rpc(ProcessError::TooManyProcesses("x".into())), RpcError::CapacityExceeded(_)));
    match fs_error_to_rpc(FsError::FileTooLarge { path: "big.bin".into(), size: 2048, limit: 1024 }, "big.bin") {
        RpcError::InvalidRequest(m) => assert_eq!(m, "file too large: big.bin is 2048 bytes, limit is 1024 bytes"),
        other => panic!("unexpected {other:?}"),
    }
    match fs_error_to_rpc(FsError::NotFound("/tmp/are-root/x".into()), "x") {
        RpcError::NotFound(m) => assert_eq!(m, "x: not found"),
        other => panic!("unexpected {other:?}"),
    }
    match fs_error_to_rpc(FsError::FilesystemEscape("path escapes allowed boundary".into()), "../x") {
        RpcError::InternalError(m) => assert_eq!(m, "filesystem escape blocked: path escapes allowed boundary"),
        other => panic!("unexpected {other:?}"),
    }
    match too_large_fallback(600, 512) {
        RpcError::InternalError(m) => assert_eq!(
            m,
            "response too large to transmit: 600 bytes exceeds 512; narrow the command or read smaller ranges"
        ),
        other => panic!("unexpected {other:?}"),
    }
    assert_eq!(log_authz_decision(None, false, "process.inspect", "no grant"), "authz deny process.inspect for <no-identity>: no grant");
}

#[test]
fn session_defaults_match_session_config() {
    let config = DaemonConfig::default();
    assert_eq!(config.session_idle_timeout_secs, DEFAULT_SESSION_IDLE_TIMEOUT_SECS);
    assert_eq!(config.session_max_lifetime_secs, DEFAULT_SESSION_MAX_LIFETIME_SECS);
    assert_eq!(config.max_sessions, DEFAULT_MAX_SESSIONS);
}

fn fs_config() -> Option<FilesystemConfig> {
    Some(FilesystemConfig::new(&[(ROOT.to_string(), Ok(ROOT.to_string()))]).unwrap())
}

fn build(config: &DaemonConfig, with_fs: bool) -> DaemonState {
    build_daemon_state(
        config,
        if with_fs { fs_config() } else { None },
        "host".into(),
        "0.1.0".into(),
        "linux",
        Some("ID=debian\n"),
    )
}

#[test]
fn build_daemon_state_wires_session_manager() {
    let config = DaemonConfig { allowed_root: Some(ROOT.into()), ..Default::default() };
    let state = build(&config, true);
    let sessions = state.sessions().expect("session manager must be wired");
    assert_eq!(sessions.config().idle_timeout_secs, config.session_idle_timeout_secs);
    assert_eq!(sessions.config().max_lifetime_secs, config.session_max_lifetime_secs);
    assert_eq!(sessions.config().max_sessions, config.max_sessions);
    assert_eq!(sessions.config().max_processes_per_session, DEFAULT_MAX_PROCESSES_PER_SESSION);
    let proc = state.proc().expect("process manager must be wired");
    assert_eq!(proc.config().max_processes_per_session, DEFAULT_MAX_PROCESSES_PER_SESSION);
}

#[test]
fn build_daemon_state_copies_per_session_cap_to_both_managers() {
    let config = DaemonConfig { allowed_root: Some(ROOT.into()), max_processes_per_session: Some(7), ..Default::default() };
    let state = build(&config, true);
    assert_eq!(state.sessions().unwrap().config().max_processes_per_session, 7);
    assert_eq!(state.proc().unwrap().config().max_processes_per_session, 7);
}

#[test]
fn build_daemon_state_uses_crate_version() {
    let state = build(&DaemonConfig::default(), false);
    assert_eq!(state.daemon_version(), "0.1.0");
}

#[test]
fn build_daemon_state_has_all_capabilities() {
    let state = build(&DaemonConfig { allowed_root: Some(ROOT.into()), ..Default::default() }, true);
    let caps = state.advertised_capabilities();
    assert!(caps.contains(&Capability::FilesystemRead));
    assert!(caps.contains(&Capability::FilesystemList));
    assert!(caps.contains(&Capability::ProcessExecute));
    assert!(caps.contains(&Capability::ProcessInspect));
    assert!(caps.contains(&Capability::ProcessTerminate));
    assert!(!caps.contains(&Capability::FilesystemWrite));
    assert_eq!(caps.len(), 5);
}

#[test]
fn build_daemon_state_derives_caps_from_backends() {
    let state = build(&DaemonConfig::default(), false);
    assert!(state.fs().is_none());
    let caps = state.advertised_capabilities();
    assert!(!caps.contains(&Capability::FilesystemRead));
    assert!(!caps.contains(&Capability::FilesystemList));
    assert!(caps.contains(&Capability::ProcessExecute));
    assert!(caps.contains(&Capability::ProcessInspect));
    assert!(caps.contains(&Capability::ProcessTerminate));
    assert_eq!(caps.len(), 3);
    assert_eq!(advertised_capabilities(false).len(), 3);
}

#[test]
fn build_daemon_state_with_valid_root() {
    let state = build(&DaemonConfig { allowed_root: Some(ROOT.into()), ..Default::default() }, true);
    assert!(state.fs().is_some());
}

#[test]
fn build_daemon_state_without_root() {
    let state = build(&DaemonConfig::default(), false);
    assert!(state.fs().is_none());
}

#[test]
fn build_daemon_state_wires_process_manager() {
    let config = DaemonConfig {
        allowed_root: Some(ROOT.into()),
        allowed_executables: Some(vec!["cargo".into(), "git".into()]),
        ..Default::default()
    };
    let state = build(&config, true);
    let proc = state.proc().expect("process manager must be wired");
    let allowed = proc.config().allowed_executables.as_ref().expect("allow list must be set");
    assert!(allowed.contains(&"cargo".to_string()));
    assert!(allowed.contains(&"git".to_string()));
}

#[test]
fn build_daemon_state_process_manager_without_allow_list() {
    let state = build(&DaemonConfig::default(), false);
    let proc = state.proc().expect("process manager must be wired");
    assert!(proc.config().allowed_executables.is_none());
    assert!(!proc.config().permissive);
}

#[test]
fn build_daemon_state_permissive_exec_opt_in() {
    let state = build(&DaemonConfig { permissive_exec: true, ..Default::default() }, false);
    assert!(state.proc().unwrap().config().permissive);
}

#[test]
fn platform_detection() {
    assert_eq!(detect_platform("linux", Some("NAME=\"Debian GNU/Linux\"")), Platform::Debian);
    assert_eq!(detect_platform("linux", Some("ID=ubuntu")), Platform::Ubuntu);
    assert_eq!(detect_platform("linux", Some("ID=fedora")), Platform::GenericLinux);
    assert_eq!(detect_platform("linux", None), Platform::GenericLinux);
    assert_eq!(detect_platform("macos", None), Platform::Unknown("macos".into()));
}

#[test]
fn daemon_error_messages() {
    assert_eq!(DaemonError::BindFailed("x".into()).message(), "bind failed: x");
    assert_eq!(DaemonError::TlsConfig("y".into()).message(), "TLS configuration failed: y");
    assert_eq!(DaemonError::SessionLimitReached.message(), "session limit reached");
    assert_eq!(DaemonError::Unauthorized.message(), "unauthorized");
}

#[test]
fn environment_mismatch_names_both_environments() {
    let state = test_state();
    match state.check_environment("other") {
        Err(RpcError::InvalidRequest(msg)) => assert_eq!(
            msg,
            "requested environment 'other' does not match daemon environment 'test-env'"
        ),
        other => panic!("expected InvalidRequest, got {other:?}"),
    }
    assert!(state.check_environment(ENV).is_ok());
}

#[test]
fn environment_info_reports_the_daemon_itself() {
    let state = test_state();
    let info = state.environment_info(None, ENV, "linux").unwrap();
    assert_eq!(info.machine_name, "test-host");
    assert_eq!(info.daemon_version, "0.1.0");
    assert_eq!(info.advertised_capabilities, vec![Capability::FilesystemRead, Capability::ProcessExecute]);
    assert_eq!(info.platform, Platform::Debian);
    assert_eq!(info.caller_fingerprint, None);
    assert_eq!(state.daemon_version(), "0.1.0");
}

#[test]
fn terminating_a_session_counts_its_live_processes() {
    let (mut state, sid) = proc_state();
    let req = exec_req(ENV, &sid, "sleep");
    let (plan, _) = state.execute_prepare(None, &req, T0 + 1);
    assert!(plan.is_ok());
    let pid = state.execute_reserve(&req, &WorkdirStatus::Directory, T0 + 1).unwrap();
    let n = state.terminate_session(None, ENV, &sid, T0 + 2).unwrap();
    assert_eq!(n, 1);
    assert!(state.kill_requested(ENV, &sid, &pid));
    assert!(matches!(state.get_session(None, ENV, &sid, T0 + 3), Err(RpcError::SessionNotFound(_))));
}

#[test]
fn execute_reserve_refuses_missing_workdir_as_invalid_request() {
    let (mut state, sid) = proc_state();
    let req = exec_req(ENV, &sid, "ls");
    let r = state.execute_reserve(&req, &WorkdirStatus::Missing, T0 + 1);
    assert!(matches!(r, Err(RpcError::InvalidRequest(_))));
    let r = state.execute_reserve(&req, &WorkdirStatus::OtherError("boom".into()), T0 + 1);
    assert!(matches!(r, Err(RpcError::InternalError(_))));
}

#[test]
fn library_run_succeeds() {
    assert!(are_daemon::daemon::run(DaemonConfig::default()).is_ok());
}

#[test]
fn grant_checks_leave_one_log_line() {
    let state = fs_state();
    let (r, logs) =
        state.authorize_path(None, ENV, "logs/a.txt", FsGrantKind::Read, true, &probe_found("/tmp/are-root/logs/a.txt"), &[]);
    assert_eq!(r.unwrap(), "/tmp/are-root/logs/a.txt");
    assert_eq!(logs.len(), 1);
    assert!(logs[0].starts_with("authz allow filesystem.read for "), "got: {}", logs[0]);
    assert!(logs[0].ends_with(": permissive: 'logs/a.txt'"), "got: {}", logs[0]);
    // Refused before the grant check: no line.
    let (r, logs) = state.authorize_path(None, "other", "logs/a.txt", FsGrantKind::Read, true, &probe_found("/tmp/are-root/logs/a.txt"), &[]);
    assert!(matches!(r, Err(RpcError::InvalidRequest(_))));
    assert!(logs.is_empty());
}

#[test]
fn unknown_principal_refusal_text() {
    let raws = vec![(FP_A.to_string(), RawPrincipalGrants::default())];
    let state = fs_state().with_grants(GrantsTable::from_raw(&raws).unwrap());
    let stranger = Caller::new("blake3:bbbbbbbbbbbbbbbbbbbbbbbbbbbbbbbbbbbbbbbbbbbbbbbbbbbbbbbbbbbbbbbb".into());
    let (r, logs) = state.authorize_path(
        Some(&stranger),
        ENV,
        "a.txt",
        FsGrantKind::Read,
        true,
        &probe_found("/tmp/are-root/a.txt"),
        &[],
    );
    match r {
        Err(RpcError::Forbidden(m)) => {
            assert_eq!(m, "unknown principal: no grants for this client identity (GetEnvironmentInfo only)")
        }
        other => panic!("expected Forbidden, got {other:?}"),
    }
    assert!(logs.is_empty());
}

#[test]
fn handle_write_missing_parent_is_not_found() {
    let state = fs_state();
    let probes = vec![ResolveProbe { target: Canonical::Missing, parent: Canonical::Missing }];
    let (r, _) = state.authorize_path(None, ENV, "missing-dir/file.txt", FsGrantKind::Write, true, &probes, &[]);
    match r {
        Err(RpcError::NotFound(m)) => assert_eq!(m, "missing-dir/file.txt: not found"),
        other => panic!("missing parent must be NotFound, got {other:?}"),
    }
}

#[test]
fn backends_missing_are_named() {
    let mut state = test_state();
    let (r, _) = state.authorize_path(None, ENV, "test.txt", FsGrantKind::Read, true, &[], &[]);
    match r {
        Err(RpcError::InternalError(m)) => assert_eq!(m, "filesystem backend not configured"),
        other => panic!("expected InternalError, got {other:?}"),
    }
    let (r, _) = state.execute_prepare(None, &exec_req(ENV, "sess-1", "cargo"), T0);
    match r {
        Err(RpcError::InternalError(m)) => assert_eq!(m, "process backend not configured"),
        other => panic!("expected InternalError, got {other:?}"),
    }
    match state.list_sessions(None, ENV, T0) {
        Err(RpcError::InternalError(m)) => assert_eq!(m, "session backend not configured"),
        other => panic!("expected InternalError, got {other:?}"),
    }
}

#[test]
fn expired_session_get_kills_its_processes() {
    let (mut state, sid) = proc_state();
    let req = exec_req(ENV, &sid, "sleep");
    assert!(state.execute_prepare(None, &req, T0 + 1).0.is_ok());
    let pid = state.execute_reserve(&req, &WorkdirStatus::Directory, T0 + 1).unwrap();
    let late = T0 + DEFAULT_SESSION_IDLE_TIMEOUT_SECS + 10;
    match state.get_session(None, ENV, &sid, late) {
        Err(RpcError::SessionExpired(m)) => assert_eq!(m, format!("session '{sid}' expired")),
        other => panic!("expected SessionExpired, got {other:?}"),
    }
    assert!(state.kill_requested(ENV, &sid, &pid));
}

#[test]
fn expired_session_terminate_still_kills() {
    let (mut state, sid) = proc_state();
    let req = exec_req(ENV, &sid, "sleep");
    assert!(state.execute_prepare(None, &req, T0 + 1).0.is_ok());
    let pid = state.execute_reserve(&req, &WorkdirStatus::Directory, T0 + 1).unwrap();
    let late = T0 + DEFAULT_SESSION_IDLE_TIMEOUT_SECS + 10;
    match state.terminate_session(None, ENV, &sid, late) {
        Err(RpcError::SessionExpired(m)) => {
            assert_eq!(m, format!("session '{sid}' expired (session processes kill attempted despite expiry)"));
            assert!(m.contains("kill attempted"));
        }
        other => panic!("expected SessionExpired, got {other:?}"),
    }
    assert!(state.kill_requested(ENV, &sid, &pid));
}

#[test]
fn exec_grant_refusal_names_process_execute() {
    let raws = vec![(FP_A.to_string(), RawPrincipalGrants { process_execute: vec!["git".into()], ..RawPrincipalGrants::default() })];
    let (state, _) = proc_state();
    let mut state = state.with_grants(GrantsTable::from_raw(&raws).unwrap());
    let caller = Caller::new(FP_A.to_string());
    let req = CreateSessionRequest { environment_id: ENV.into(), working_directory: None, env_vars: Vec::new() };
    let s = state.create_session(Some(&caller), &req, &WorkdirStatus::Directory, T0).unwrap();
    let (r, logs) = state.execute_prepare(Some(&caller), &exec_req(ENV, &s.session_id, "cargo"), T0 + 1);
    match r {
        Err(RpcError::Forbidden(m)) => assert_eq!(m, "process.execute denied for 'cargo'"),
        other => panic!("expected Forbidden, got {other:?}"),
    }
    assert_eq!(logs.len(), 1);
    let stranger = Caller::new("blake3:cccccccccccccccccccccccccccccccccccccccccccccccccccccccccccccccc".into());
    match state.create_session(Some(&stranger), &req, &WorkdirStatus::Directory, T0) {
        Err(RpcError::Forbidden(m)) => assert!(m.contains("unknown principal")),
        other => panic!("expected Forbidden, got {other:?}"),
    }
}

#[test]
fn sessions_are_isolated_between_callers() {
    let (mut state, _) = proc_state();
    let a = Caller::new(FP_A.to_string());
    let b = Caller::new("blake3:bbbbbbbbbbbbbbbbbbbbbbbbbbbbbbbbbbbbbbbbbbbbbbbbbbbbbbbbbbbbbbbb".into());
    let req = CreateSessionRequest { environment_id: ENV.into(), working_directory: None, env_vars: Vec::new() };
    let s = state.create_session(Some(&a), &req, &WorkdirStatus::Directory, T0).unwrap();
    assert!(matches!(state.get_session(Some(&b), ENV, &s.session_id, T0 + 1), Err(RpcError::SessionNotFound(_))));
    assert!(matches!(state.get_session(None, ENV, &s.session_id, T0 + 1), Err(RpcError::SessionNotFound(_))));
    assert!(matches!(state.terminate_session(Some(&b), ENV, &s.session_id, T0 + 1), Err(RpcError::SessionNotFound(_))));
    let back = state.get_session(Some(&a), ENV, &s.session_id, T0 + 2).unwrap();
    assert_eq!(back.session_id, s.session_id);
    assert_eq!(back.last_activity, T0 + 2);
}

#[test]
fn build_daemon_state_keeps_default_deny_list_and_timers() {
    let config = DaemonConfig {
        permissive_exec: true,
        allowed_executables: Some(vec!["shutdown".into(), "cargo".into()]),
        ..Default::default()
    };
    let state = build(&config, false);
    let proc = state.proc().expect("process manager must be wired");
    assert_eq!(proc.config().denied_executables, vec!["shutdown", "reboot", "poweroff", "halt", "init"]);
    assert_eq!(proc.config().retention_secs, 3600);
    assert_eq!(proc.config().drain_timeout_secs, 5);
    assert!(matches!(proc.config().check_policy("shutdown"), Err(ProcessError::DeniedExecutable(_))));
    assert!(matches!(proc.config().check_policy("/sbin/reboot"), Err(ProcessError::DeniedExecutable(_))));
    assert!(proc.config().check_policy("cargo").is_ok());
}

#[test]
fn refused_listing_leaves_sessions_alone() {
    let (mut state, sid) = proc_state();
    assert!(matches!(state.list_sessions(None, "other-env", T0 + 1), Err(RpcError::InvalidRequest(_))));
    let back = state.get_session(None, ENV, &sid, T0 + 2).unwrap();
    assert_eq!(back.session_id, sid);
    let raws = vec![(FP_A.to_string(), RawPrincipalGrants { process_execute: vec!["git".into()], ..RawPrincipalGrants::default() })];
    let (state, _) = proc_state();
    let mut state = state.with_grants(GrantsTable::from_raw(&raws).unwrap());
    let a = Caller::new(FP_A.to_string());
    let req = CreateSessionRequest { environment_id: ENV.into(), working_directory: None, env_vars: Vec::new() };
    let s = state.create_session(Some(&a), &req, &WorkdirStatus::Directory, T0).unwrap();
    let stranger = Caller::new("blake3:cccccccccccccccccccccccccccccccccccccccccccccccccccccccccccccccc".into());
    assert!(matches!(state.list_sessions(Some(&stranger), ENV, T0 + 3), Err(RpcError::Forbidden(_))));
    let listed = state.list_sessions(Some(&a), ENV, T0 + 4).unwrap();
    assert!(listed.iter().any(|x| x.session_id == s.session_id));
}

#[test]
fn other_callers_miss_owned_sessions_even_after_expiry() {
    let (mut state, _) = proc_state();
    let a = Caller::new(FP_A.to_string());
    let b = Caller::new("blake3:bbbbbbbbbbbbbbbbbbbbbbbbbbbbbbbbbbbbbbbbbbbbbbbbbbbbbbbbbbbbbbbb".into());
    let req = CreateSessionRequest { environment_id: ENV.into(), working_directory: None, env_vars: Vec::new() };
    let s = state.create_session(Some(&a), &req, &WorkdirStatus::Directory, T0).unwrap();
    let listed = state.list_sessions(Some(&b), ENV, T0 + 1).unwrap();
    assert!(listed.iter().all(|x| x.session_id != s.session_id));
    let (r, _) = state.execute_prepare(Some(&b), &exec_req(ENV, &s.session_id, "cargo"), T0 + 2);
    assert!(matches!(r, Err(RpcError::SessionNotFound(_))));
    assert!(state.get_session(Some(&a), ENV, &s.session_id, T0 + 3).is_ok());
    let late = T0 + 3 + DEFAULT_SESSION_IDLE_TIMEOUT_SECS + 10;
    assert!(matches!(state.get_session(Some(&b), ENV, &s.session_id, late), Err(RpcError::SessionNotFound(_))));
    assert!(matches!(state.terminate_session(Some(&b), ENV, &s.session_id, late), Err(RpcError::SessionNotFound(_))));
}
