//! The service of the operating system.
use membrane_daemon::service::{linux, macos, unsupported, windows, Output, ServiceStatus, Step};

fn output(success: bool, stdout: &str, stderr: &str) -> Output {
    Output { success, stdout: stdout.as_bytes().to_vec(), stderr: stderr.as_bytes().to_vec() }
}

#[test]
fn unit_renders_with_exe_path() {
    let body = linux::render_unit("/usr/local/bin/membrane-daemon");
    assert!(body.contains("ExecStart=/usr/local/bin/membrane-daemon run"));
    assert!(body.contains("Restart=on-failure"));
    assert!(body.contains("WantedBy=default.target"));
    assert!(body.contains("After=network-online.target"));
    assert!(body.starts_with("[Unit]\nDescription=Membrane daemon\n"));
    assert!(body.ends_with("\n\n[Install]\nWantedBy=default.target\n"));
}

#[test]
fn unit_path_under_user_systemd_dir() {
    let p = linux::unit_path(Some("/home/me"));
    assert!(p.ends_with(".config/systemd/user/membrane-daemon.service"));
    assert_eq!(p, "/home/me/.config/systemd/user/membrane-daemon.service");
    assert_eq!(linux::unit_path(None), "./.config/systemd/user/membrane-daemon.service");
}

#[test]
fn plist_contains_exe_and_logs() {
    let body = macos::render_plist("/usr/local/bin/membrane-daemon", Some("/Users/me"));
    assert!(body.contains("<string>com.membrane.daemon</string>"));
    assert!(body.contains("/usr/local/bin/membrane-daemon"));
    assert!(body.contains("<string>run</string>"));
    assert!(body.contains("KeepAlive"));
    assert!(body.contains(
        "<key>StandardOutPath</key>\n    <string>/Users/me/Library/Logs/membrane/daemon.out</string>"
    ));
    assert!(body.contains(
        "<key>StandardErrorPath</key>\n    <string>/Users/me/Library/Logs/membrane/daemon.err</string>"
    ));
    assert!(body.ends_with("</string>\n</dict>\n</plist>\n"));
}

#[test]
fn plist_path_under_launch_agents() {
    let p = macos::plist_path(Some("/Users/me"));
    assert!(p.ends_with("Library/LaunchAgents/com.membrane.daemon.plist"));
    assert_eq!(macos::log_dir(None), "./Library/Logs/membrane");
}

fn shown(steps: Vec<Step>) -> Vec<String> {
    steps
        .into_iter()
        .map(|s| match s {
            Step::MakeDir(p) => format!("mkdir {p}"),
            Step::WriteFile { path, .. } => format!("write {path}"),
            Step::RemoveFile(p) => format!("rm {p}"),
            Step::Control { args, required } => {
                format!("{} {}", if required { "must" } else { "may" }, args.join(" "))
            }
            Step::Say(line) => format!("say {line}"),
        })
        .collect()
}

#[test]
fn systemd_installation_in_steps() {
    assert_eq!(
        shown(linux::install("/bin/d", Some("/h"))),
        vec![
            "mkdir /h/.config/systemd/user",
            "write /h/.config/systemd/user/membrane-daemon.service",
            "say wrote /h/.config/systemd/user/membrane-daemon.service",
            "must daemon-reload",
            "must enable membrane-daemon.service",
            "say service installed. Use `systemctl --user start membrane-daemon.service` or",
            "say `membrane-daemon start` to start it now.",
        ]
    );
    assert_eq!(
        shown(linux::uninstall(Some("/h"))),
        vec![
            "may stop membrane-daemon.service",
            "may disable membrane-daemon.service",
            "rm /h/.config/systemd/user/membrane-daemon.service",
            "may daemon-reload",
        ]
    );
    assert_eq!(linux::start(), vec!["start", "membrane-daemon.service"]);
    assert_eq!(linux::stop(), vec!["stop", "membrane-daemon.service"]);
    assert_eq!(linux::query(), vec!["is-active", "membrane-daemon.service"]);
}

#[test]
fn launchd_installation_in_steps() {
    assert_eq!(
        shown(macos::install("/bin/d", Some("/h"), 501)),
        vec![
            "mkdir /h/Library/LaunchAgents",
            "mkdir /h/Library/Logs/membrane",
            "write /h/Library/LaunchAgents/com.membrane.daemon.plist",
            "say wrote /h/Library/LaunchAgents/com.membrane.daemon.plist",
            "may bootout gui/501/com.membrane.daemon",
            "must bootstrap gui/501 /h/Library/LaunchAgents/com.membrane.daemon.plist",
            "say service installed and bootstrapped",
        ]
    );
    assert_eq!(
        shown(macos::uninstall(Some("/h"), 501)),
        vec![
            "may bootout gui/501/com.membrane.daemon",
            "rm /h/Library/LaunchAgents/com.membrane.daemon.plist",
        ]
    );
    assert_eq!(macos::start(5), vec!["kickstart", "gui/5/com.membrane.daemon"]);
    assert_eq!(macos::stop(5), vec!["kill", "SIGTERM", "gui/5/com.membrane.daemon"]);
    assert_eq!(macos::query(5), vec!["print", "gui/5/com.membrane.daemon"]);
}

#[test]
fn systemd_states() {
    assert_eq!(linux::status(None).unwrap(), ServiceStatus::NotInstalled);
    let ask = |s: &str| linux::status(Some(Ok(output(false, s, "")))).unwrap();
    assert_eq!(ask("active\n"), ServiceStatus::Running);
    assert_eq!(ask("inactive\n"), ServiceStatus::Stopped);
    assert_eq!(ask("failed"), ServiceStatus::Stopped);
    assert_eq!(ask(" activating \n"), ServiceStatus::Unknown("activating".into()));
    let e = linux::status(Some(Err("no systemctl".into()))).unwrap_err();
    assert_eq!(e.message, "run systemctl is-active");
    assert_eq!(e.cause.as_deref(), Some("no systemctl"));
    assert_eq!(linux::state_of("active"), ServiceStatus::Running);
}

#[test]
fn launchd_states() {
    assert_eq!(macos::status(None).unwrap(), ServiceStatus::NotInstalled);
    let ask = |s: &str| macos::status(Some(Ok(output(true, s, "")))).unwrap();
    assert_eq!(ask("a\n\tstate = running\n"), ServiceStatus::Running);
    assert_eq!(
        ask("x\r\n\tstate = spawn scheduled\r\nstate = exited\n"),
        ServiceStatus::Unknown("state = spawn scheduled".into())
    );
    assert_eq!(ask("last state = exited"), ServiceStatus::Unknown("state = unknown".into()));
    assert_eq!(ask("nothing"), ServiceStatus::Stopped);
    let failed = macos::status(Some(Ok(output(false, "state = running", "")))).unwrap();
    assert_eq!(failed, ServiceStatus::Stopped);
    let e = macos::status(Some(Err("x".into()))).unwrap_err();
    assert_eq!(e.message, "run launchctl print");
}

#[test]
fn control_failures_show_the_errors() {
    let args = linux::start();
    assert!(linux::run_systemctl(&args, Ok(output(true, "", "noise"))).is_ok());
    let e = linux::run_systemctl(&args, Ok(output(false, "", " no bus\n"))).unwrap_err();
    assert_eq!(e.message, "systemctl --user start membrane-daemon.service failed: no bus");
    let e = linux::run_systemctl(&args, Err("gone".into())).unwrap_err();
    assert_eq!(e.message, "run: systemctl --user start membrane-daemon.service");
    assert_eq!(e.cause.as_deref(), Some("gone"));
    let args = macos::stop(1);
    let e = macos::launchctl(&args, Ok(output(false, "", "x"))).unwrap_err();
    assert_eq!(e.message, "launchctl kill SIGTERM gui/1/com.membrane.daemon failed: x");
    let e = macos::launchctl(&args, Err("gone".into())).unwrap_err();
    assert_eq!(e.message, "launchctl kill SIGTERM gui/1/com.membrane.daemon");
    let none: Vec<String> = vec![];
    let e = macos::launchctl(&none, Err("gone".into())).unwrap_err();
    assert_eq!(e.message, "launchctl ");
}

#[test]
fn windows_service() {
    let r = windows::install("C:\\d.exe");
    assert_eq!(r.name, "MembraneDaemon");
    assert_eq!(r.display_name, "Membrane Daemon");
    assert_eq!(r.description, "Customer-side daemon for the membrane cloud.");
    assert_eq!(r.executable, "C:\\d.exe");
    assert_eq!(r.arguments, vec!["run"]);
    assert_eq!(windows::uninstall(None).unwrap(), None);
    assert_eq!(windows::uninstall(Some(Ok(()))).unwrap(), Some("uninstalled Windows service"));
    assert_eq!(windows::uninstall(Some(Err("x".into()))).unwrap_err().message, "delete service");
    assert!(windows::start(Ok(Ok(()))).is_ok());
    assert_eq!(windows::start(Ok(Err("x".into()))).unwrap_err().message, "start service");
    assert_eq!(windows::stop(Ok(Err("x".into()))).unwrap_err().message, "stop service");
    assert_eq!(windows::stop(Err("x".into())).unwrap_err().message, "open service");
    let ask = |a| windows::status(a).unwrap();
    assert_eq!(ask(windows::ScmAnswer::NoManager), ServiceStatus::Unknown("cannot open SCM".into()));
    assert_eq!(ask(windows::ScmAnswer::NoService), ServiceStatus::NotInstalled);
    let state = |s| windows::ScmAnswer::State(Ok(s));
    assert_eq!(ask(state(windows::ScmState::Running)), ServiceStatus::Running);
    assert_eq!(ask(state(windows::ScmState::Stopped)), ServiceStatus::Stopped);
    assert_eq!(
        ask(state(windows::ScmState::Other("Paused".into()))),
        ServiceStatus::Unknown("Paused".into())
    );
    let e = windows::status(windows::ScmAnswer::State(Err("x".into()))).unwrap_err();
    assert_eq!(e.message, "query status");
}

#[test]
fn unsupported_platforms() {
    let text = |what: &str| format!("service {what} not supported on this platform");
    assert_eq!(unsupported::install().unwrap_err().message, text("install"));
    assert_eq!(unsupported::uninstall().unwrap_err().message, text("uninstall"));
    assert_eq!(unsupported::start().unwrap_err().message, text("start"));
    assert_eq!(unsupported::stop().unwrap_err().message, text("stop"));
    assert_eq!(unsupported::status(), ServiceStatus::NotInstalled);
}

#[test]
fn states_in_words() {
    assert_eq!(ServiceStatus::Running.text(), "running");
    assert_eq!(ServiceStatus::Stopped.text(), "stopped");
    assert_eq!(ServiceStatus::NotInstalled.text(), "not installed");
    assert_eq!(ServiceStatus::Unknown("?".into()).text(), "unknown (?)");
}
