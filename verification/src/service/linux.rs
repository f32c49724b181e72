//! The service under systemd, controlled with `systemctl --user`.
//!
//! It runs while its user is logged in; lingering is left to the user.
use vstd::prelude::*;

use crate::config;
use crate::deps;
use crate::failure;
use crate::failure::Failure;
use crate::pathname;
use crate::pathname::Style;
use crate::service;
use crate::service::{Output, ServiceStatus, Step};
use crate::text;

verus! {

pub const SERVICE_NAME: &'static str = "membrane-daemon.service";

/// The unit's text before the executable. A restart waits a little, so that
/// transient crashes pass without hammering the cloud; memory is capped, so
/// that the daemon cannot take the user's session down.
pub const UNIT_HEAD: &'static str = "[Unit]\nDescription=Membrane daemon\nDocumentation=https://membrane.example.com/docs\nAfter=network-online.target\nWants=network-online.target\n\n[Service]\nExecStart=";

/// The unit's text after the executable.
pub const UNIT_TAIL: &'static str = " run\nRestart=on-failure\nRestartSec=5\n# Daemon is interactive-grade; cap memory + CPU so a misbehaving build\n# can't take down the customer's session.\nMemoryHigh=512M\nMemoryMax=1G\n# Inherit the user's environment for HOME, PATH, etc.\nPassEnvironment=HOME PATH\n\n[Install]\nWantedBy=default.target\n";

/// The directory of the user's units.
pub open spec fn unit_dir_of(home: Option<Seq<char>>) -> Seq<char> {
    pathname::join_of(Style::Unix, service::home_or_here(home), ".config/systemd/user"@)
}

/// The unit's file.
pub open spec fn unit_path_of(home: Option<Seq<char>>) -> Seq<char> {
    pathname::join_of(Style::Unix, unit_dir_of(home), SERVICE_NAME@)
}

/// The directory of the user's units.
fn unit_dir(home: Option<&str>) -> (res: String)
    ensures
        res@ == unit_dir_of(text::slice_said(home)),
{
    pathname::join(Style::Unix, service::home_dir(home), ".config/systemd/user")
}

/// The unit's file.
pub fn unit_path(home: Option<&str>) -> (res: String)
    ensures
        res@ == unit_path_of(text::slice_said(home)),
{
    let dir = unit_dir(home);
    pathname::join(Style::Unix, dir.as_str(), SERVICE_NAME)
}

/// The unit's text, for the daemon's executable.
pub fn render_unit(exe: &str) -> (res: String)
    ensures
        res@ == UNIT_HEAD@ + exe@ + UNIT_TAIL@,
{
    text::text3(UNIT_HEAD, exe, UNIT_TAIL)
}

/// The steps of [`install`].
pub open spec fn install_steps(exe: Seq<char>, home: Option<Seq<char>>) -> Seq<
    service::StepModel,
> {
    seq![
        service::StepModel::MakeDir(unit_dir_of(home)),
        service::StepModel::WriteFile {
            path: unit_path_of(home),
            body: UNIT_HEAD@ + exe + UNIT_TAIL@,
        },
        service::StepModel::Say("wrote "@ + unit_path_of(home)),
        service::StepModel::Control { args: seq!["daemon-reload"@], required: true },
        service::StepModel::Control { args: seq!["enable"@, SERVICE_NAME@], required: true },
        service::StepModel::Say(
            "service installed. Use `systemctl --user start "@ + SERVICE_NAME@ + "` or"@,
        ),
        service::StepModel::Say("`membrane-daemon start` to start it now."@),
    ]
}

/// How to install the service.
pub fn install(exe: &str, home: Option<&str>) -> (res: Vec<Step>)
    ensures
        service::steps_model(res@) == install_steps(exe@, text::slice_said(home)),
{
    let path = unit_path(home);
    let wrote = text::text2("wrote ", path.as_str());
    let mut steps: Vec<Step> = Vec::new();
    steps.push(Step::MakeDir(unit_dir(home)));
    steps.push(Step::WriteFile { path, body: render_unit(exe) });
    steps.push(Step::Say(wrote));
    steps.push(Step::Control { args: reload(), required: true });
    steps.push(Step::Control { args: service::words2("enable", SERVICE_NAME), required: true });
    steps.push(
        Step::Say(
            text::text3("service installed. Use `systemctl --user start ", SERVICE_NAME, "` or"),
        ),
    );
    steps.push(Step::Say("`membrane-daemon start` to start it now.".to_string()));
    assert(service::steps_model(steps@) =~= install_steps(exe@, text::slice_said(home)));
    steps
}

/// The steps of [`uninstall`].
pub open spec fn uninstall_steps(home: Option<Seq<char>>) -> Seq<service::StepModel> {
    seq![
        service::StepModel::Control { args: seq!["stop"@, SERVICE_NAME@], required: false },
        service::StepModel::Control { args: seq!["disable"@, SERVICE_NAME@], required: false },
        service::StepModel::RemoveFile(unit_path_of(home)),
        service::StepModel::Control { args: seq!["daemon-reload"@], required: false },
    ]
}

/// How to remove the service. It may be half installed or not at all.
pub fn uninstall(home: Option<&str>) -> (res: Vec<Step>)
    ensures
        service::steps_model(res@) == uninstall_steps(text::slice_said(home)),
{
    let mut steps: Vec<Step> = Vec::new();
    steps.push(Step::Control { args: service::words2("stop", SERVICE_NAME), required: false });
    steps.push(Step::Control { args: service::words2("disable", SERVICE_NAME), required: false });
    steps.push(Step::RemoveFile(unit_path(home)));
    steps.push(Step::Control { args: reload(), required: false });
    assert(service::steps_model(steps@) =~= uninstall_steps(text::slice_said(home)));
    steps
}

/// The arguments that make systemd read its units again.
fn reload() -> (res: Vec<String>)
    ensures
        config::texts(res@) == seq!["daemon-reload"@],
{
    let mut args: Vec<String> = Vec::new();
    args.push("daemon-reload".to_string());
    assert(config::texts(args@) =~= seq!["daemon-reload"@]);
    args
}

/// The arguments that start the service.
pub fn start() -> (res: Vec<String>)
    ensures
        config::texts(res@) == seq!["start"@, SERVICE_NAME@],
{
    service::words2("start", SERVICE_NAME)
}

/// The arguments that stop the service.
pub fn stop() -> (res: Vec<String>)
    ensures
        config::texts(res@) == seq!["stop"@, SERVICE_NAME@],
{
    service::words2("stop", SERVICE_NAME)
}

/// The arguments that ask for the service's state.
pub fn query() -> (res: Vec<String>)
    ensures
        config::texts(res@) == seq!["is-active"@, SERVICE_NAME@],
{
    service::words2("is-active", SERVICE_NAME)
}

/// The state that systemd names so.
pub open spec fn state_named(state: Seq<char>) -> service::StatusModel {
    if state == "active"@ {
        service::StatusModel::Running
    } else if state == "inactive"@ || state == "failed"@ {
        service::StatusModel::Stopped
    } else {
        service::StatusModel::Unknown(state)
    }
}

/// The state that systemd names so.
pub fn state_of(state: &str) -> (res: ServiceStatus)
    ensures
        res@ == state_named(state@),
{
    if text::same_text(state, "active") {
        ServiceStatus::Running
    } else if text::same_text(state, "inactive") || text::same_text(state, "failed") {
        ServiceStatus::Stopped
    } else {
        ServiceStatus::Unknown(state.to_string())
    }
}

/// The service's state, given what asking for it gave; nothing was asked if it
/// has no unit.
pub fn status(answer: Option<Result<Output, String>>) -> (res: Result<ServiceStatus, Failure>)
    ensures
        match answer {
            None => res is Ok && res->Ok_0@ is NotInstalled,
            Some(Err(e)) => res is Err && res->Err_0@ == failure::because(
                "run systemctl is-active"@,
                e@,
            ),
            Some(Ok(output)) => res is Ok && res->Ok_0@ == state_named(
                text::trimmed(deps::lossy_of(output.stdout@)),
            ),
        },
{
    match answer {
        None => Ok(ServiceStatus::NotInstalled),
        Some(Err(e)) => Err(Failure::caused("run systemctl is-active", e)),
        Some(Ok(output)) => {
            let stdout = deps::lossy_text(output.stdout.as_slice());
            Ok(state_of(text::trim(stdout.as_str())))
        },
    }
}

/// What came of running `systemctl --user` with those arguments.
pub fn run_systemctl(args: &Vec<String>, outcome: Result<Output, String>) -> (res: Result<
    (),
    Failure,
>)
    ensures
        match (
            res,
            service::control_failure(
                "run: "@ + ("systemctl --user "@ + service::joined(config::texts(args@))),
                "systemctl --user "@ + service::joined(config::texts(args@)),
                outcome,
            ),
        ) {
            (Ok(_), None) => true,
            (Err(e), Some(why)) => e@ == why,
            _ => false,
        },
{
    let words = service::join_words(args);
    let program = text::text2("systemctl --user ", words.as_str());
    let run = text::text2("run: ", program.as_str());
    service::control_result(run.as_str(), program.as_str(), outcome)
}

// ── Laws ────────────────────────────────────────────────────────────

/// Installing writes one unit, which runs the executable, to the place where
/// systemd looks for it, after making the directory that it lies in; then systemd
/// must read it and enable it.
pub proof fn law_installing_enables_the_unit(exe: Seq<char>, home: Option<Seq<char>>)
    ensures
        ({
            let steps = install_steps(exe, home);
            let dir = unit_dir_of(home);
            let path = pathname::join_of(Style::Unix, dir, "membrane-daemon.service"@);
            &&& steps[0] == service::StepModel::MakeDir(dir)
            &&& steps[1] is WriteFile
            &&& steps[1]->WriteFile_path == path
            &&& steps[1]->body == UNIT_HEAD@ + exe + UNIT_TAIL@
            &&& steps[3] == (service::StepModel::Control {
                args: seq!["daemon-reload"@],
                required: true,
            })
            &&& steps[4] == (service::StepModel::Control {
                args: seq!["enable"@, "membrane-daemon.service"@],
                required: true,
            })
            &&& forall|i: int|
                0 <= i < steps.len() && i != 1 ==> !(#[trigger] steps[i] is WriteFile)
            &&& forall|i: int| 0 <= i < steps.len() ==> !(#[trigger] steps[i] is RemoveFile)
        }),
{
}

/// The units of a user lie below their home directory, where systemd looks.
pub proof fn law_units_lie_below_home(home: Seq<char>)
    requires
        home.len() > 0,
        home.last() != '/',
    ensures
        unit_dir_of(Some(home)) == home + "/.config/systemd/user"@,
        unit_path_of(Some(home)) == home + "/.config/systemd/user/membrane-daemon.service"@,
{
    reveal_strlit(".config/systemd/user");
    reveal_strlit("/.config/systemd/user");
    reveal_strlit("membrane-daemon.service");
    reveal_strlit("/.config/systemd/user/membrane-daemon.service");
    let dir = home + "/.config/systemd/user"@;
    pathname::law_joined_behind_a_separator(home, ".config/systemd/user"@);
    assert(home.push('/') + ".config/systemd/user"@ =~= dir);
    assert(dir.last() == "/.config/systemd/user"@[20]);
    pathname::law_joined_behind_a_separator(dir, SERVICE_NAME@);
    assert(dir.push('/') + SERVICE_NAME@ =~= home
        + "/.config/systemd/user/membrane-daemon.service"@);
}

/// Removing undoes installing: the file that was written is removed, the service
/// is stopped and disabled first, and nothing of it is required to succeed.
pub proof fn law_removing_undoes_installing(exe: Seq<char>, home: Option<Seq<char>>)
    ensures
        ({
            let steps = uninstall_steps(home);
            let written = install_steps(exe, home)[1]->WriteFile_path;
            &&& steps.len() == 4
            &&& steps[0] == (service::StepModel::Control {
                args: seq!["stop"@, "membrane-daemon.service"@],
                required: false,
            })
            &&& steps[1] == (service::StepModel::Control {
                args: seq!["disable"@, "membrane-daemon.service"@],
                required: false,
            })
            &&& steps[2] == service::StepModel::RemoveFile(written)
            &&& steps[3] == (service::StepModel::Control {
                args: seq!["daemon-reload"@],
                required: false,
            })
        }),
{
}

/// An active service runs, an inactive or failed one is stopped, and any other
/// state is told as it is.
pub proof fn law_states_of_systemd(state: Seq<char>)
    ensures
        state_named("active"@) is Running,
        state_named("inactive"@) is Stopped,
        state_named("failed"@) is Stopped,
        state != "active"@ && state != "inactive"@ && state != "failed"@ ==> state_named(state)
            == service::StatusModel::Unknown(state),
{
    reveal_strlit("active");
    reveal_strlit("inactive");
    reveal_strlit("failed");
    assert("active"@[0] == 'a' && "inactive"@[0] == 'i' && "failed"@[0] == 'f');
}

} // verus!
