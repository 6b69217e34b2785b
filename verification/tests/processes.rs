use are_daemon::fs::{Canonical, FilesystemBackend, FilesystemConfig, ResolveProbe};
use are_daemon::ids::random_id;
use are_daemon::proc_table::{append_capped, ProcessState, ProcessTable, StreamKind};
use are_daemon::process::{
    merge_session_env, program_basename, sanitize_env, validate_wait_timeout, workdir_error, ExecuteRequest,
    ProcessConfig, ProcessError, ProcessManager, DEFAULT_DRAIN_TIMEOUT_SECS, DEFAULT_MAX_OUTPUT_BYTES,
    DEFAULT_MAX_PROCESSES, DEFAULT_RETENTION_SECS, MAX_WAIT_TIMEOUT_SECS,
};
use are_daemon::session::{SessionInfo, WorkdirStatus, DEFAULT_MAX_PROCESSES_PER_SESSION};

const ENV: &str = "test-env";
const SESS: &str = "sess-test";
const NOW: u64 = 1_000_000;

fn pairs(v: &[(&str, &str)]) -> Vec<(String, String)> {
    v.iter().map(|(k, val)| (k.to_string(), val.to_string())).collect()
}

fn get<'a>(v: &'a [(String, String)], k: &str) -> Option<&'a str> {
    v.iter().rev().find(|(key, _)| key == k).map(|(_, val)| val.as_str())
}

fn session() -> SessionInfo {
    SessionInfo {
        session_id: SESS.to_string(),
        environment_id: ENV.to_string(),
        working_directory: ".".to_string(),
        env_vars: Vec::new(),
        created_at: 0,
        last_activity: 0,
        owner: None,
    }
}

fn exec_req(program: &str, args: &[&str], workdir: &str) -> ExecuteRequest {
    ExecuteRequest {
        environment_id: ENV.to_string(),
        session_id: SESS.to_string(),
        program: program.to_string(),
        args: args.iter().map(|s| s.to_string()).collect(),
        working_directory: workdir.to_string(),
        env_vars: Vec::new(),
    }
}

fn permissive_manager(allowed: Option<Vec<String>>) -> ProcessManager {
    let config = ProcessConfig {
        allowed_executables: allowed,
        permissive: true,
        max_output_bytes: 4096,
        ..ProcessConfig::default()
    };
    ProcessManager::new(ENV.to_string(), config)
}

/// The spawn path up to the reservation: plan, resolve the working
/// directory with what the filesystem reported, examine it, reserve.
fn start(
    mgr: &mut ProcessManager,
    fs: Option<&FilesystemBackend>,
    req: &ExecuteRequest,
    probe: Vec<ResolveProbe>,
    is_dir: bool,
) -> Result<String, ProcessError> {
    let plan = mgr.prepare_start(req, &session())?;
    let status = match fs {
        None => WorkdirStatus::NoBackend,
        Some(fs) => match fs.resolve(&plan.working_directory, &probe) {
            Err(are_daemon::fs::FsError::FilesystemEscape(_)) => WorkdirStatus::Escapes,
            Err(_) => WorkdirStatus::Unresolvable,
            Ok(_) if is_dir => WorkdirStatus::Directory,
            Ok(_) => WorkdirStatus::NotADirectory,
        },
    };
    if let Some(e) = workdir_error(&status) {
        return Err(e);
    }
    mgr.reserve(req, NOW)
}

fn fs() -> FilesystemBackend {
    FilesystemBackend::new(
        FilesystemConfig::new(&[("/tmp/root".to_string(), Ok("/tmp/root".to_string()))]).unwrap(),
    )
}

fn root_probe() -> Vec<ResolveProbe> {
    vec![ResolveProbe { target: Canonical::Found("/tmp/root".to_string()), parent: Canonical::Missing }]
}

#[test]
fn basename_splits_unix_and_windows() {
    assert_eq!(program_basename("cargo"), "cargo");
    assert_eq!(program_basename("/usr/bin/cargo"), "cargo");
    assert_eq!(program_basename("./shutdown"), "shutdown");
    assert_eq!(program_basename("C:\\Windows\\System32\\cmd.exe"), "cmd.exe");
    assert_eq!(program_basename("..\\reboot"), "reboot");
}

#[test]
fn default_config_denies_shutdown_family() {
    let config = ProcessConfig::default();
    for prog in ["shutdown", "reboot", "poweroff", "halt", "init"] {
        assert!(matches!(config.check_policy(prog), Err(ProcessError::DeniedExecutable(_))), "{prog}");
    }
    assert!(matches!(config.check_policy("/sbin/shutdown"), Err(ProcessError::DeniedExecutable(_))));
}

#[test]
fn deny_list_catches_exe_and_case_variants() {
    let config = ProcessConfig::with_allow_list(&["git"]);
    for prog in ["shutdown.exe", "SHUTDOWN", "Shutdown.ExE", "C:\\Windows\\System32\\shutdown.exe", "/sbin/SHUTDOWN"] {
        assert!(matches!(config.check_policy(prog), Err(ProcessError::DeniedExecutable(_))), "{prog}");
    }
}

#[test]
fn allow_list_matches_normalized_names() {
    let config = ProcessConfig::with_allow_list(&["git"]);
    assert!(config.check_policy("git").is_ok());
    assert!(config.check_policy("/usr/bin/git").is_ok());
    assert!(config.check_policy("GIT.EXE").is_ok());
}

#[test]
fn default_config_is_fail_closed() {
    let config = ProcessConfig::default();
    assert!(!config.permissive);
    assert!(matches!(config.check_policy("cargo"), Err(ProcessError::PolicyDenied(_))));
    assert!(matches!(config.check_policy("/usr/bin/git"), Err(ProcessError::PolicyDenied(_))));
}

#[test]
fn permissive_mode_restores_allow_anything() {
    let config = ProcessConfig { permissive: true, ..ProcessConfig::default() };
    assert!(config.check_policy("cargo").is_ok());
    assert!(config.check_policy("/usr/bin/git").is_ok());
    assert!(matches!(config.check_policy("shutdown"), Err(ProcessError::DeniedExecutable(_))));
    assert!(matches!(config.check_policy("shutdown.exe"), Err(ProcessError::DeniedExecutable(_))));
}

#[test]
fn allow_list_restricts_to_members() {
    let config = ProcessConfig::with_allow_list(&["git"]);
    assert!(config.check_policy("git").is_ok());
    assert!(config.check_policy("/usr/bin/git").is_ok());
    assert!(matches!(config.check_policy("cargo"), Err(ProcessError::DeniedExecutable(_))));
}

#[test]
fn deny_list_wins_over_allow_list() {
    let mut config = ProcessConfig::with_allow_list(&["shutdown"]);
    assert!(matches!(config.check_policy("shutdown"), Err(ProcessError::DeniedExecutable(_))));
    config.allowed_executables = Some(Vec::new());
    assert!(matches!(config.check_policy("cargo"), Err(ProcessError::DeniedExecutable(_))));
}

#[test]
fn sanitize_env_strips_loader_keys() {
    let env = pairs(&[
        ("LD_PRELOAD", "/tmp/evil.so"),
        ("LD_LIBRARY_PATH", "/tmp/evil"),
        ("LD_AUDIT", "/tmp/audit.so"),
        ("LD_CUSTOM", "x"),
        ("DYLD_INSERT_LIBRARIES", "/tmp/evil.dylib"),
        ("DYLD_FALLBACK_LIBRARY_PATH", "/tmp"),
        ("RUST_LOG", "debug"),
        ("PATH_LIKE", "kept"),
    ]);
    let clean = sanitize_env(&env);
    assert_eq!(clean.len(), 2);
    assert_eq!(get(&clean, "RUST_LOG"), Some("debug"));
    assert_eq!(get(&clean, "PATH_LIKE"), Some("kept"));
}

#[test]
fn merged_env_request_wins_and_is_sanitized() {
    let merged = merge_session_env(
        &pairs(&[("A", "session"), ("B", "b"), ("LD_PRELOAD", "x")]),
        &pairs(&[("A", "request"), ("DYLD_X", "y")]),
    );
    assert_eq!(get(&merged, "A"), Some("request"));
    assert_eq!(get(&merged, "B"), Some("b"));
    assert_eq!(get(&merged, "LD_PRELOAD"), None);
    assert_eq!(get(&merged, "DYLD_X"), None);
}

fn table_entry(table: &mut ProcessTable, config: &ProcessConfig, finished_age: Option<u64>) -> String {
    let pid = table.reserve(config, ENV, SESS, "test", NOW).expect("reserve");
    if let Some(age) = finished_age {
        table.finish(ENV, SESS, &pid, ProcessState::Exited { code: 0 }, NOW - age);
    }
    pid
}

fn present(table: &ProcessTable, pid: &str) -> bool {
    table.status(ENV, SESS, pid).is_ok()
}

#[test]
fn expired_terminal_entries_are_evictable() {
    let config = ProcessConfig::default();
    let mut table = ProcessTable::new();
    let old = table_entry(&mut table, &config, Some(7200));
    let fresh = table_entry(&mut table, &config, Some(10));
    let live = table_entry(&mut table, &config, None);
    table.evict_expired_terminal_entries(3600, NOW);
    assert!(!present(&table, &old));
    assert!(present(&table, &fresh));
    assert!(present(&table, &live));
}

#[test]
fn oldest_terminal_evicted_first_and_live_never() {
    let config = ProcessConfig::default();
    let mut table = ProcessTable::new();
    let old = table_entry(&mut table, &config, Some(100));
    let new = table_entry(&mut table, &config, Some(10));
    let live = table_entry(&mut table, &config, None);
    table.evict_oldest_terminal_entries(3);
    assert_eq!(table.len(), 2);
    assert!(!present(&table, &old));
    assert!(present(&table, &new));
    assert!(present(&table, &live));
}

#[test]
fn make_room_refuses_when_all_live() {
    let config = ProcessConfig { max_processes: 2, ..ProcessConfig::default() };
    let mut table = ProcessTable::new();
    table_entry(&mut table, &config, None);
    table_entry(&mut table, &config, None);
    let err = table.make_room_for_spawn(&config, NOW).unwrap_err();
    assert!(matches!(err, ProcessError::TooManyProcesses(_)));
    assert_eq!(table.len(), 2);
}

#[test]
fn per_session_cap_counts_after_retention_eviction() {
    let config = ProcessConfig { max_processes_per_session: 1, ..ProcessConfig::default() };
    let mut table = ProcessTable::new();
    let first = table_entry(&mut table, &config, Some(7200));
    // The only entry of the session is retention-expired: it is evicted
    // before the cap is checked, so the spawn goes through.
    let second = table.reserve(&config, ENV, SESS, "test", NOW).expect("reserve");
    assert!(!present(&table, &first));
    assert!(present(&table, &second));
    // Now the session holds one live entry: refused.
    assert!(matches!(table.reserve(&config, ENV, SESS, "test", NOW), Err(ProcessError::TooManyProcesses(_))));
    // Another session still has room.
    assert!(table.reserve(&config, ENV, "sess-other", "test", NOW).is_ok());
    assert_eq!(table.count_for_session(SESS), 1);
}

#[test]
fn process_allocated_ids_are_unique_and_well_formed() {
    let mut seen = std::collections::HashSet::new();
    for _ in 0..100 {
        let id = random_id("proc-").expect("alloc");
        assert!(id.starts_with("proc-"));
        assert_eq!(id.len(), "proc-".len() + 32);
        assert!(id.chars().skip("proc-".len()).all(|c| c.is_ascii_hexdigit() && !c.is_ascii_uppercase()));
        assert!(seen.insert(id), "id collision");
    }
}

#[test]
fn default_output_cap_is_8mib() {
    assert_eq!(ProcessConfig::default().max_output_bytes, 8 * 1024 * 1024);
    assert_eq!(DEFAULT_MAX_OUTPUT_BYTES, 8 * 1024 * 1024);
}

#[test]
fn default_table_bounds() {
    let config = ProcessConfig::default();
    assert_eq!(config.max_processes, DEFAULT_MAX_PROCESSES);
    assert_eq!(config.retention_secs, DEFAULT_RETENTION_SECS);
    assert_eq!(config.drain_timeout_secs, DEFAULT_DRAIN_TIMEOUT_SECS);
    assert_eq!(config.max_processes_per_session, DEFAULT_MAX_PROCESSES_PER_SESSION);
}

#[test]
fn output_is_capped_and_flagged() {
    let mut buf = b"ab".to_vec();
    let mut truncated = false;
    append_capped(&mut buf, &mut truncated, b"cdef", 4);
    assert_eq!(buf, b"abcd");
    assert!(truncated);
    let mut buf2 = Vec::new();
    let mut t2 = false;
    append_capped(&mut buf2, &mut t2, b"xy", 4);
    assert_eq!(buf2, b"xy");
    assert!(!t2);
    append_capped(&mut buf, &mut truncated, b"z", 4);
    assert_eq!(buf, b"abcd");
}

#[test]
fn table_output_wait_and_kill_flow() {
    let config = ProcessConfig::default();
    let mut table = ProcessTable::new();
    let pid = table.reserve(&config, ENV, SESS, "echo", NOW).unwrap();
    table.append_output(ENV, SESS, &pid, StreamKind::Stdout, b"hello\n", 4096);
    assert!(table.wait_poll(ENV, SESS, &pid, false).unwrap().is_none());
    let snapshot = table.wait_poll(ENV, SESS, &pid, true).unwrap().unwrap();
    assert!(snapshot.timed_out);
    assert_eq!(snapshot.exit_code, None);
    assert_eq!(snapshot.stdout, b"hello\n");
    assert!(table.request_kill(ENV, SESS, &pid).unwrap());
    assert!(table.kill_requested(ENV, SESS, &pid));
    table.finish(ENV, SESS, &pid, ProcessState::Exited { code: 0 }, NOW + 1);
    let done = table.wait_poll(ENV, SESS, &pid, false).unwrap().unwrap();
    assert_eq!(done.exit_code, Some(0));
    assert!(!done.timed_out);
    assert_eq!(table.status(ENV, SESS, &pid).unwrap(), ProcessState::Exited { code: 0 });
    assert!(!table.request_kill(ENV, SESS, &pid).unwrap());
    // A lookup under another session misses like an unknown id.
    assert!(matches!(table.status(ENV, "sess-other", &pid), Err(ProcessError::NotFound(_))));
}

#[test]
fn session_cascade_kills_live_entries_only() {
    let config = ProcessConfig::default();
    let mut table = ProcessTable::new();
    let live = table.reserve(&config, ENV, SESS, "a", NOW).unwrap();
    let done = table.reserve(&config, ENV, SESS, "b", NOW).unwrap();
    table.finish(ENV, SESS, &done, ProcessState::Failed { message: "signal".into() }, NOW);
    let other = table.reserve(&config, ENV, "sess-other", "c", NOW).unwrap();
    assert_eq!(table.kill_session_processes(ENV, SESS), 1);
    assert!(table.kill_requested(ENV, SESS, &live));
    assert!(!table.kill_requested(ENV, SESS, &done));
    assert!(!table.kill_requested(ENV, "sess-other", &other));
}

#[test]
fn deny_list_rejects_shutdown_family() {
    let mut mgr = permissive_manager(None);
    for prog in ["shutdown", "reboot", "poweroff", "halt", "init", "/sbin/shutdown"] {
        let err = start(&mut mgr, Some(&fs()), &exec_req(prog, &[], "."), root_probe(), true).unwrap_err();
        assert!(matches!(err, ProcessError::DeniedExecutable(_)), "{prog}");
    }
}

#[test]
fn allow_list_rejects_unlisted_program() {
    let mut mgr = permissive_manager(Some(vec!["git".into()]));
    let err = start(&mut mgr, Some(&fs()), &exec_req("cargo", &["--version"], "."), root_probe(), true).unwrap_err();
    assert!(matches!(err, ProcessError::DeniedExecutable(_)));
}

#[test]
fn traversal_and_absolute_workdirs_rejected() {
    let mut mgr = permissive_manager(None);
    let outside = vec![ResolveProbe { target: Canonical::Found("/".to_string()), parent: Canonical::Missing }];
    for workdir in ["../..", "..", "/etc", "C:\\Windows"] {
        let err = start(&mut mgr, Some(&fs()), &exec_req("cargo", &[], workdir), outside.clone(), true).unwrap_err();
        assert!(matches!(err, ProcessError::InvalidRequest(_)), "{workdir}");
    }
}

#[test]
fn invalid_env_var_key_rejected_before_spawn() {
    let mut mgr = permissive_manager(None);
    let mut req = exec_req("cargo", &[], ".");
    req.env_vars.push(("A=B".into(), "v".into()));
    let err = start(&mut mgr, Some(&fs()), &req, root_probe(), true).unwrap_err();
    assert!(matches!(err, ProcessError::InvalidRequest(_)));
}

#[test]
fn wrong_environment_id_rejected_before_spawn() {
    let mut mgr = permissive_manager(None);
    let mut req = exec_req("shutdown", &[], ".");
    req.environment_id = "other-env".into();
    let err = start(&mut mgr, Some(&fs()), &req, root_probe(), true).unwrap_err();
    assert!(matches!(err, ProcessError::EnvironmentMismatch(_)));
}

#[test]
fn unknown_process_ids_are_not_found() {
    let mut mgr = permissive_manager(None);
    assert!(validate_wait_timeout(1).is_ok());
    assert!(matches!(mgr.wait_poll(ENV, SESS, "proc-999999", false), Err(ProcessError::NotFound(_))));
    assert!(matches!(mgr.request_kill(ENV, SESS, "proc-999999"), Err(ProcessError::NotFound(_))));
}

#[test]
fn wait_timeout_over_bound_rejected() {
    assert!(matches!(validate_wait_timeout(MAX_WAIT_TIMEOUT_SECS + 1), Err(ProcessError::InvalidRequest(_))));
}

#[test]
fn wait_zero_timeout_rejected() {
    assert!(matches!(validate_wait_timeout(0), Err(ProcessError::InvalidRequest(_))));
}

#[test]
fn default_config_is_fail_closed_at_spawn() {
    let mut mgr = ProcessManager::new(ENV.to_string(), ProcessConfig::default());
    let err = start(&mut mgr, Some(&fs()), &exec_req("cargo", &[], "."), root_probe(), true).unwrap_err();
    assert!(matches!(err, ProcessError::PolicyDenied(_)));
}

#[test]
fn client_supplied_path_env_rejected() {
    let mut mgr = permissive_manager(None);
    let mut req = exec_req("cargo", &[], ".");
    req.env_vars.push(("PATH".into(), "/tmp/evil".into()));
    let err = start(&mut mgr, Some(&fs()), &req, root_probe(), true).unwrap_err();
    assert!(matches!(err, ProcessError::InvalidRequest(_)));
}

#[test]
fn deny_list_catches_exe_variants_without_spawn() {
    let mut mgr = permissive_manager(None);
    for prog in ["shutdown.exe", "SHUTDOWN", "Shutdown.ExE"] {
        let err = start(&mut mgr, Some(&fs()), &exec_req(prog, &[], "."), root_probe(), true).unwrap_err();
        assert!(matches!(err, ProcessError::DeniedExecutable(_)), "{prog}");
    }
}

#[test]
fn start_without_filesystem_backend_fails_closed() {
    let mut mgr = permissive_manager(None);
    let err = start(&mut mgr, None, &exec_req("cargo", &[], "."), root_probe(), true).unwrap_err();
    assert!(matches!(err, ProcessError::Internal(_)));
}

#[test]
fn workdir_must_be_an_existing_directory() {
    let mut mgr = permissive_manager(None);
    let file = vec![ResolveProbe { target: Canonical::Found("/tmp/root/file.txt".into()), parent: Canonical::Missing }];
    let err = start(&mut mgr, Some(&fs()), &exec_req("cargo", &[], "file.txt"), file, false).unwrap_err();
    assert!(matches!(err, ProcessError::InvalidRequest(_)));
    assert!(matches!(workdir_error(&WorkdirStatus::Missing), Some(ProcessError::InvalidRequest(_))));
}

#[test]
fn successful_start_reserves_a_running_entry() {
    let mut mgr = permissive_manager(None);
    let pid = start(&mut mgr, Some(&fs()), &exec_req("cargo", &[], ""), root_probe(), true).unwrap();
    assert!(pid.starts_with("proc-"));
    assert_eq!(mgr.status(ENV, SESS, &pid).unwrap(), ProcessState::Running);
    assert_eq!(mgr.process_count(), 1);
    assert_eq!(mgr.count_for_session(SESS), 1);
    mgr.release(ENV, SESS, &pid);
    assert_eq!(mgr.process_count(), 0);
}

#[test]
fn plan_inherits_session_workdir_and_merges_env() {
    let mgr = permissive_manager(None);
    let mut sess = session();
    sess.working_directory = "sub".into();
    sess.env_vars = pairs(&[("A", "s"), ("KEEP", "k")]);
    let mut req = exec_req("cargo", &["build"], "");
    req.env_vars = pairs(&[("A", "r"), ("LD_PRELOAD", "x")]);
    let plan = mgr.prepare_start(&req, &sess).unwrap();
    assert_eq!(plan.working_directory, "sub");
    assert_eq!(plan.args, vec!["build".to_string()]);
    assert_eq!(get(&plan.env_vars, "A"), Some("r"));
    assert_eq!(get(&plan.env_vars, "KEEP"), Some("k"));
    assert_eq!(get(&plan.env_vars, "LD_PRELOAD"), None);
    let mut other = exec_req("cargo", &[], "");
    other.session_id = "sess-other".into();
    assert!(matches!(mgr.prepare_start(&other, &sess), Err(ProcessError::Internal(_))));
}

#[test]
fn child_env_holds_each_key_once_last_value_wins() {
    let clean = sanitize_env(&pairs(&[("A", "1"), ("B", "2"), ("A", "3"), ("LD_X", "y")]));
    assert_eq!(clean, pairs(&[("B", "2"), ("A", "3")]));
    let merged = merge_session_env(&pairs(&[("A", "s"), ("C", "c")]), &pairs(&[("A", "r")]));
    assert_eq!(merged, pairs(&[("C", "c"), ("A", "r")]));
}
