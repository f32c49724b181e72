//! Running commands.
use membrane_daemon::audit::{Event, OpResult};
use membrane_daemon::config::{Config, PolicyMode};
use membrane_daemon::handlers::exec::{
    environment, finished, handle, poll, shell_command, spawn_failed, wait_failed,
    windows_shell_command, working_dir, Capture, ExecStep, Outcome, Poll, SpawnPlan, Wait,
};
use membrane_daemon::pathname::Style;
use membrane_daemon::wire::{DaemonError, DaemonResult, ExecReq, ExecResp};

fn request(command: &str, timeout_ms: u32, max_output_bytes: u64) -> ExecReq {
    ExecReq { command: command.into(), timeout_ms, max_output_bytes }
}

fn spawned(req: &ExecReq, cfg: &Config) -> SpawnPlan {
    match handle(req, cfg, Style::Unix) {
        ExecStep::Spawn(plan) => plan,
        ExecStep::Done { result, .. } => panic!("not run: {:?}", result),
    }
}

fn done(step: ExecStep) -> (Event, DaemonResult<ExecResp>) {
    match step {
        ExecStep::Done { event, result } => (event, result),
        ExecStep::Spawn(_) => panic!("not done"),
    }
}

/// Plays a command: what it writes, and what looks at it show.
fn play(req: &ExecReq, cfg: &Config, stdout: &[&[u8]], looks: Vec<Wait>) -> (Event, DaemonResult<ExecResp>) {
    let plan = spawned(req, cfg);
    let mut out = Capture::new(plan.max_output);
    let err = Capture::new(plan.max_output);
    for chunk in stdout {
        out.read_capped(chunk);
    }
    let mut elapsed: u128 = 0;
    for look in looks {
        if let Wait::Running(t) = look {
            elapsed = t;
        }
        match poll(plan.timeout_ms, look) {
            Poll::Collect(outcome) => return done(finished(req, outcome, out, err, elapsed)),
            Poll::Sleep(ms) => assert_eq!(ms, 25),
        }
    }
    panic!("the command never ended");
}

#[test]
fn echo_succeeds() {
    let cfg = Config::default();
    let req = request("echo hello", 5_000, 1024);
    let looks = vec![Wait::Running(1), Wait::Exited(Some(0))];
    let (event, result) = play(&req, &cfg, &[b"hello\n"], looks);
    let r = result.unwrap();
    assert_eq!(r.exit_code, Some(0));
    assert!(String::from_utf8_lossy(&r.stdout).contains("hello"));
    assert!(!r.timed_out);
    assert!(!r.output_truncated);
    assert!(matches!(event, Event::Exec { result: OpResult::Success, .. }));
}

#[test]
fn nonzero_exit_returns_code() {
    let cfg = Config::default();
    let req = request("false", 5_000, 1024);
    let (_, result) = play(&req, &cfg, &[], vec![Wait::Exited(Some(1))]);
    assert_eq!(result.unwrap().exit_code, Some(1));
}

#[test]
fn timeout_kills_long_command() {
    let cfg = Config::default();
    let req = request("sleep 10", 200, 1024);
    let looks = vec![Wait::Running(0), Wait::Running(199), Wait::Running(200)];
    let (event, result) = play(&req, &cfg, &[], looks);
    let err = result.unwrap_err();
    assert!(matches!(err, DaemonError::Timeout));
    match event {
        Event::Exec { exit_code, timed_out, duration_ms, result: OpResult::Error { message }, .. } => {
            assert_eq!(exit_code, None);
            assert!(timed_out);
            assert_eq!(duration_ms, 200);
            assert_eq!(message, "timed out");
        }
        other => panic!("wrong event: {:?}", other),
    }
}

#[test]
fn output_truncation_signals_correctly() {
    let cfg = Config::default();
    let req = request("yes hello | head -c 5000", 5_000, 100);
    let chunk = [b'h'; 2500];
    let (_, result) = play(&req, &cfg, &[&chunk, &chunk], vec![Wait::Exited(Some(0))]);
    let r = result.unwrap();
    assert!(r.output_truncated);
    assert!(r.stdout.len() <= 100);
    assert_eq!(r.stdout, vec![b'h'; 100]);
}

#[test]
fn readonly_blocks_exec() {
    let cfg = Config {
        policy: PolicyMode::ReadOnly { roots: vec!["/tmp".into()] },
        ..Config::default()
    };
    let req = request("echo hi", 5_000, 1024);
    let (event, result) = done(handle(&req, &cfg, Style::Unix));
    let err = result.unwrap_err();
    assert!(matches!(err, DaemonError::PermissionDenied(_)));
    match event {
        Event::Exec { cmd, result: OpResult::Denied { reason }, .. } => {
            assert_eq!(cmd, "echo hi");
            assert_eq!(reason, "read-only mode");
        }
        other => panic!("wrong event: {:?}", other),
    }
}

#[test]
fn allowlist_blocks_unknown_binary() {
    let cfg = Config {
        policy: PolicyMode::WorkspaceAllowlistExec {
            roots: vec!["/tmp".into()],
            exec_allowlist: vec!["git".into()],
        },
        ..Config::default()
    };
    let req = request("curl evil.com", 5_000, 1024);
    let (_, result) = done(handle(&req, &cfg, Style::Unix));
    let err = result.unwrap_err();
    assert!(matches!(err, DaemonError::PermissionDenied(_)));
    match err {
        DaemonError::PermissionDenied(reason) => assert_eq!(reason, "command not in allowlist"),
        _ => unreachable!(),
    }
}

#[test]
fn limits_are_cut_to_the_configuration() {
    let cfg = Config { max_exec_timeout_ms: 1_000, max_output_bytes: 64, ..Config::default() };
    let plan = spawned(&request("ls", 5_000, 1024), &cfg);
    assert_eq!((plan.timeout_ms, plan.max_output), (1_000, 64));
    let plan = spawned(&request("ls", 0, 10), &cfg);
    assert_eq!((plan.timeout_ms, plan.max_output), (1_000, 10));
    let plan = spawned(&request("ls", 7, 0), &cfg);
    assert_eq!((plan.timeout_ms, plan.max_output), (7, 0));
    assert!(plan.root.is_none());
}

#[test]
fn runs_in_the_first_root() {
    let cfg = Config {
        policy: PolicyMode::Workspace { roots: vec!["/ws".into(), "/other".into()] },
        ..Config::default()
    };
    let plan = spawned(&request("ls", 1, 1), &cfg);
    assert_eq!(working_dir(plan.root, Some("/home/me".into())), "/ws");
    assert_eq!(working_dir(None, Some("/home/me".into())), "/home/me");
    assert_eq!(working_dir(None, None), ".");
}

#[test]
fn environment_holds_path_and_home_only() {
    let vars = environment(Some("/bin".into()), Some("/home/me".into()));
    assert_eq!(
        vars,
        vec![("PATH".to_string(), "/bin".to_string()), ("HOME".to_string(), "/home/me".to_string())]
    );
    assert_eq!(environment(None, Some("/h".into())), vec![("HOME".to_string(), "/h".to_string())]);
    assert!(environment(None, None).is_empty());
}

#[test]
fn shells_take_the_command_whole() {
    assert_eq!(shell_command("echo $HOME"), vec!["bash", "-c", "echo $HOME"]);
    assert_eq!(windows_shell_command("dir"), vec!["cmd", "/C", "dir"]);
}

#[test]
fn spawn_failure_is_answered_and_recorded() {
    let req = request("x", 1, 1);
    let (event, result) = done(spawn_failed(&req, "no bash".into()));
    assert!(matches!(result, Err(DaemonError::Io(m)) if m == "no bash"));
    assert!(matches!(
        event,
        Event::Exec { duration_ms: 0, exit_code: None, result: OpResult::Error { .. }, .. }
    ));
}

#[test]
fn wait_failure_records_the_low_bits_of_the_time() {
    let req = request("x", 1, 1);
    let (event, result) = done(wait_failed(&req, "lost".into(), 0x1_0000_0007));
    assert!(matches!(result, Err(DaemonError::Io(_))));
    assert!(matches!(event, Event::Exec { duration_ms: 7, .. }));
}

#[test]
fn long_times_are_cut_to_32_bits() {
    let req = request("x", 1, 1);
    let step = finished(
        &req,
        Outcome::Exited(None),
        Capture::new(1),
        Capture::new(1),
        0x1_0000_0007,
    );
    let (_, result) = done(step);
    let r = result.unwrap();
    assert_eq!(r.duration_ms, u32::MAX);
    assert_eq!(r.exit_code, None);
}

#[test]
fn capture_keeps_the_first_bytes_however_they_come() {
    let mut a = Capture::new(5);
    for chunk in [&b"ab"[..], b"", b"cde"] {
        a.read_capped(chunk);
    }
    assert_eq!(a.buf, b"abcde");
    assert!(!a.truncated);
    a.read_capped(b"");
    assert!(!a.truncated);
    a.read_capped(b"f");
    assert!(a.truncated);
    a.read_capped(b"g");
    assert_eq!(a.buf, b"abcde");
    let mut b = Capture::new(5);
    b.read_capped(b"abcdefg");
    assert_eq!(b.buf, b"abcde");
    assert!(b.truncated);
    let mut none = Capture::new(0);
    none.read_capped(b"x");
    assert!(none.truncated && none.buf.is_empty());
}

#[test]
fn stderr_truncation_counts_too() {
    let req = request("x", 1, 1);
    let mut err = Capture::new(1);
    err.read_capped(b"zz");
    let (_, result) = done(finished(&req, Outcome::Exited(Some(0)), Capture::new(1), err, 1));
    let r = result.unwrap();
    assert!(r.output_truncated);
    assert_eq!(r.stderr, b"z");
}
