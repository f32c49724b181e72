//! The service under launchd, controlled with `launchctl` in the user's GUI
//! domain.
use vstd::prelude::*;

use crate::config;
use crate::deps;
use crate::failure;
use crate::failure::Failure;
use crate::lines;
use crate::pathname;
use crate::pathname::Style;
use crate::service;
use crate::service::{Output, ServiceStatus, Step};
use crate::text;

verus! {

pub const LABEL: &'static str = "com.membrane.daemon";

/// The property list's text before the label.
pub const PLIST_LABEL: &'static str = "<?xml version=\"1.0\" encoding=\"UTF-8\"?>\n<!DOCTYPE plist PUBLIC \"-//Apple//DTD PLIST 1.0//EN\" \"http://www.apple.com/DTDs/PropertyList-1.0.dtd\">\n<plist version=\"1.0\">\n<dict>\n    <key>Label</key>\n    <string>";

/// The text between the label and the executable.
pub const PLIST_EXE: &'static str = "</string>\n    <key>ProgramArguments</key>\n    <array>\n        <string>";

/// The text between the executable and the file for its output.
pub const PLIST_OUT: &'static str = "</string>\n        <string>run</string>\n    </array>\n    <key>RunAtLoad</key>\n    <true/>\n    <key>KeepAlive</key>\n    <dict>\n        <key>SuccessfulExit</key>\n        <false/>\n    </dict>\n    <key>ProcessType</key>\n    <string>Interactive</string>\n    <key>StandardOutPath</key>\n    <string>";

/// The text between the file for its output and the file for its errors.
pub const PLIST_ERR: &'static str = "</string>\n    <key>StandardErrorPath</key>\n    <string>";

/// The text after the file for its errors.
pub const PLIST_END: &'static str = "</string>\n</dict>\n</plist>\n";

/// The user's GUI domain.
pub open spec fn domain_of(uid: u32) -> Seq<char> {
    "gui/"@ + text::decimal(uid as nat)
}

/// The service in that domain.
pub open spec fn target_of(uid: u32) -> Seq<char> {
    domain_of(uid) + "/"@ + LABEL@
}

/// The user's GUI domain.
pub fn domain(uid: u32) -> (res: String)
    ensures
        res@ == domain_of(uid),
{
    let id = text::decimal_text(uid as u64);
    text::text2("gui/", id.as_str())
}

/// The service in that domain.
pub fn service_target(uid: u32) -> (res: String)
    ensures
        res@ == target_of(uid),
{
    let domain = domain(uid);
    text::text3(domain.as_str(), "/", LABEL)
}

/// The directory of the user's agents.
pub open spec fn agents_dir_of(home: Option<Seq<char>>) -> Seq<char> {
    pathname::join_of(Style::Unix, service::home_or_here(home), "Library/LaunchAgents"@)
}

/// The property list's file.
pub open spec fn plist_path_of(home: Option<Seq<char>>) -> Seq<char> {
    pathname::join_of(Style::Unix, agents_dir_of(home), LABEL@ + ".plist"@)
}

/// The directory of the daemon's output.
pub open spec fn log_dir_of(home: Option<Seq<char>>) -> Seq<char> {
    pathname::join_of(Style::Unix, service::home_or_here(home), "Library/Logs/membrane"@)
}

/// The directory of the user's agents.
fn agents_dir(home: Option<&str>) -> (res: String)
    ensures
        res@ == agents_dir_of(text::slice_said(home)),
{
    pathname::join(Style::Unix, service::home_dir(home), "Library/LaunchAgents")
}

/// The property list's file.
pub fn plist_path(home: Option<&str>) -> (res: String)
    ensures
        res@ == plist_path_of(text::slice_said(home)),
{
    let dir = agents_dir(home);
    let name = text::text2(LABEL, ".plist");
    pathname::join(Style::Unix, dir.as_str(), name.as_str())
}

/// The directory of the daemon's output.
pub fn log_dir(home: Option<&str>) -> (res: String)
    ensures
        res@ == log_dir_of(text::slice_said(home)),
{
    pathname::join(Style::Unix, service::home_dir(home), "Library/Logs/membrane")
}

/// The property list, for the daemon's executable.
pub open spec fn plist_of(exe: Seq<char>, home: Option<Seq<char>>) -> Seq<char> {
    PLIST_LABEL@ + LABEL@ + PLIST_EXE@ + exe + PLIST_OUT@ + pathname::join_of(
        Style::Unix,
        log_dir_of(home),
        "daemon.out"@,
    ) + PLIST_ERR@ + pathname::join_of(Style::Unix, log_dir_of(home), "daemon.err"@) + PLIST_END@
}

/// The property list, for the daemon's executable.
pub fn render_plist(exe: &str, home: Option<&str>) -> (res: String)
    ensures
        res@ == plist_of(exe@, text::slice_said(home)),
{
    let logs = log_dir(home);
    let stdout = pathname::join(Style::Unix, logs.as_str(), "daemon.out");
    let stderr = pathname::join(Style::Unix, logs.as_str(), "daemon.err");
    let mut out = text::text5(PLIST_LABEL, LABEL, PLIST_EXE, exe, PLIST_OUT);
    out.append(stdout.as_str());
    out.append(PLIST_ERR);
    out.append(stderr.as_str());
    out.append(PLIST_END);
    out
}

/// The steps of [`install`].
pub open spec fn install_steps(exe: Seq<char>, home: Option<Seq<char>>, uid: u32) -> Seq<
    service::StepModel,
> {
    seq![
        service::StepModel::MakeDir(agents_dir_of(home)),
        service::StepModel::MakeDir(log_dir_of(home)),
        service::StepModel::WriteFile { path: plist_path_of(home), body: plist_of(exe, home) },
        service::StepModel::Say("wrote "@ + plist_path_of(home)),
        service::StepModel::Control { args: seq!["bootout"@, target_of(uid)], required: false },
        service::StepModel::Control {
            args: seq!["bootstrap"@, domain_of(uid), plist_path_of(home)],
            required: true,
        },
        service::StepModel::Say("service installed and bootstrapped"@),
    ]
}

/// How to install the service. One that is there already is taken out first.
pub fn install(exe: &str, home: Option<&str>, uid: u32) -> (res: Vec<Step>)
    ensures
        service::steps_model(res@) == install_steps(exe@, text::slice_said(home), uid),
{
    let path = plist_path(home);
    let wrote = text::text2("wrote ", path.as_str());
    let domain = domain(uid);
    let target = service_target(uid);
    let mut bootstrap = service::words2("bootstrap", domain.as_str());
    service::push_word(&mut bootstrap, path.as_str());
    proof {
        assert(config::texts(bootstrap@) =~= seq!["bootstrap"@, domain@, path@]);
    }
    let mut steps: Vec<Step> = Vec::new();
    steps.push(Step::MakeDir(agents_dir(home)));
    steps.push(Step::MakeDir(log_dir(home)));
    steps.push(Step::WriteFile { path, body: render_plist(exe, home) });
    steps.push(Step::Say(wrote));
    steps.push(
        Step::Control { args: service::words2("bootout", target.as_str()), required: false },
    );
    steps.push(Step::Control { args: bootstrap, required: true });
    steps.push(Step::Say("service installed and bootstrapped".to_string()));
    assert(service::steps_model(steps@) =~= install_steps(exe@, text::slice_said(home), uid));
    steps
}

/// The steps of [`uninstall`].
pub open spec fn uninstall_steps(home: Option<Seq<char>>, uid: u32) -> Seq<service::StepModel> {
    seq![
        service::StepModel::Control { args: seq!["bootout"@, target_of(uid)], required: false },
        service::StepModel::RemoveFile(plist_path_of(home)),
    ]
}

/// How to remove the service. It may be half installed or not at all.
pub fn uninstall(home: Option<&str>, uid: u32) -> (res: Vec<Step>)
    ensures
        service::steps_model(res@) == uninstall_steps(text::slice_said(home), uid),
{
    let target = service_target(uid);
    let mut steps: Vec<Step> = Vec::new();
    steps.push(
        Step::Control { args: service::words2("bootout", target.as_str()), required: false },
    );
    steps.push(Step::RemoveFile(plist_path(home)));
    assert(service::steps_model(steps@) =~= uninstall_steps(text::slice_said(home), uid));
    steps
}

/// The arguments that start the service.
pub fn start(uid: u32) -> (res: Vec<String>)
    ensures
        config::texts(res@) == seq!["kickstart"@, target_of(uid)],
{
    let target = service_target(uid);
    service::words2("kickstart", target.as_str())
}

/// The arguments that stop the service.
pub fn stop(uid: u32) -> (res: Vec<String>)
    ensures
        config::texts(res@) == seq!["kill"@, "SIGTERM"@, target_of(uid)],
{
    let target = service_target(uid);
    let mut args = service::words2("kill", "SIGTERM");
    service::push_word(&mut args, target.as_str());
    assert(config::texts(args@) =~= seq!["kill"@, "SIGTERM"@, target@]);
    args
}

/// The arguments that ask for the service's state.
pub fn query(uid: u32) -> (res: Vec<String>)
    ensures
        config::texts(res@) == seq!["print"@, target_of(uid)],
{
    let target = service_target(uid);
    service::words2("print", target.as_str())
}

/// Whether a line names a state.
pub open spec fn names_state(line: Seq<char>) -> bool {
    text::begins_with(text::trim_start(line), "state ="@)
}

/// The first line that names a state.
pub open spec fn state_line(all: Seq<Seq<char>>) -> Option<Seq<char>>
    decreases all.len(),
{
    if all.len() == 0 {
        None
    } else if state_line(all.drop_last()) is Some {
        state_line(all.drop_last())
    } else if names_state(all.last()) {
        Some(all.last())
    } else {
        None
    }
}

/// The state that launchd's text names.
pub open spec fn state_named(printed: Seq<char>) -> service::StatusModel {
    if lines::contains_text(printed, "state = running"@) {
        service::StatusModel::Running
    } else if lines::contains_text(printed, "state = "@) {
        service::StatusModel::Unknown(
            text::trimmed(
                match state_line(lines::lines_of(printed)) {
                    Some(line) => line,
                    None => "state = unknown"@,
                },
            ),
        )
    } else {
        service::StatusModel::Stopped
    }
}

/// The first line that names a state.
fn find_state<'a>(all: &Vec<&'a str>) -> (res: Option<&'a str>)
    ensures
        match (res, state_line(lines::slices(all@))) {
            (Some(line), Some(m)) => line@ == m,
            (None, None) => true,
            _ => false,
        },
{
    let ghost model = lines::slices(all@);
    let n: usize = all.len();
    let mut i: usize = 0;
    proof {
        assert(model.take(0) =~= Seq::<Seq<char>>::empty());
    }
    while i < n
        invariant
            n == all@.len(),
            i <= n,
            model == lines::slices(all@),
            state_line(model.take(i as int)) is None,
        decreases n - i,
    {
        let line: &'a str = all[i];
        proof {
            assert(model.take(i + 1).drop_last() =~= model.take(i as int));
            assert(model.take(i + 1).last() == line@);
        }
        if text::strip_prefix(lines::trim_front(line), "state =").is_some() {
            proof {
                lemma_first_state(model, i + 1);
            }
            return Some(line);
        }
        i += 1;
    }
    proof {
        assert(model.take(n as int) =~= model);
    }
    None
}

/// The first line that names a state stays the first, whatever follows.
proof fn lemma_first_state(all: Seq<Seq<char>>, k: int)
    requires
        0 <= k <= all.len(),
        state_line(all.take(k)) is Some,
    ensures
        state_line(all) == state_line(all.take(k)),
    decreases all.len() - k,
{
    if k < all.len() {
        assert(all.take(k + 1).drop_last() =~= all.take(k));
        lemma_first_state(all, k + 1);
    } else {
        assert(all.take(k) =~= all);
    }
}

/// The state that launchd's text names.
pub fn state_of(printed: &str) -> (res: ServiceStatus)
    ensures
        res@ == state_named(printed@),
{
    if lines::contains(printed, "state = running") {
        ServiceStatus::Running
    } else if lines::contains(printed, "state = ") {
        let all = lines::lines(printed);
        let line: &str = match find_state(&all) {
            Some(line) => line,
            None => "state = unknown",
        };
        ServiceStatus::Unknown(text::trim(line).to_string())
    } else {
        ServiceStatus::Stopped
    }
}

/// The service's state, given what asking for it gave; nothing was asked if it
/// has no property list.
pub fn status(answer: Option<Result<Output, String>>) -> (res: Result<ServiceStatus, Failure>)
    ensures
        match answer {
            None => res is Ok && res->Ok_0@ is NotInstalled,
            Some(Err(e)) => res is Err && res->Err_0@ == failure::because(
                "run launchctl print"@,
                e@,
            ),
            Some(Ok(output)) => res is Ok && res->Ok_0@ == if output.success {
                state_named(deps::lossy_of(output.stdout@))
            } else {
                service::StatusModel::Stopped
            },
        },
{
    match answer {
        None => Ok(ServiceStatus::NotInstalled),
        Some(Err(e)) => Err(Failure::caused("run launchctl print", e)),
        Some(Ok(output)) => {
            if !output.success {
                return Ok(ServiceStatus::Stopped);
            }
            let stdout = deps::lossy_text(output.stdout.as_slice());
            Ok(state_of(stdout.as_str()))
        },
    }
}

/// What came of running `launchctl` with those arguments.
pub fn launchctl(args: &Vec<String>, outcome: Result<Output, String>) -> (res: Result<(), Failure>)
    ensures
        match (
            res,
            service::control_failure(
                "launchctl "@ + service::joined(config::texts(args@)),
                "launchctl "@ + service::joined(config::texts(args@)),
                outcome,
            ),
        ) {
            (Ok(_), None) => true,
            (Err(e), Some(why)) => e@ == why,
            _ => false,
        },
{
    let words = service::join_words(args);
    let program = text::text2("launchctl ", words.as_str());
    service::control_result(program.as_str(), program.as_str(), outcome)
}

// ── Laws ────────────────────────────────────────────────────────────

/// Installing writes one property list, which runs the executable under the
/// service's label with its output in the logs, takes out what is there, and must
/// put the new one in.
pub proof fn law_installing_bootstraps_the_agent(
    exe: Seq<char>,
    home: Option<Seq<char>>,
    uid: u32,
)
    ensures
        ({
            let steps = install_steps(exe, home, uid);
            let path = pathname::join_of(
                Style::Unix,
                agents_dir_of(home),
                "com.membrane.daemon"@ + ".plist"@,
            );
            let domain = "gui/"@ + text::decimal(uid as nat);
            &&& steps[0] == service::StepModel::MakeDir(agents_dir_of(home))
            &&& steps[1] == service::StepModel::MakeDir(log_dir_of(home))
            &&& steps[2] is WriteFile
            &&& steps[2]->WriteFile_path == path
            &&& steps[2]->body == plist_of(exe, home)
            &&& steps[4] == (service::StepModel::Control {
                args: seq!["bootout"@, domain + "/"@ + "com.membrane.daemon"@],
                required: false,
            })
            &&& steps[5] == (service::StepModel::Control {
                args: seq!["bootstrap"@, domain, path],
                required: true,
            })
            &&& forall|i: int|
                0 <= i < steps.len() && i != 2 ==> !(#[trigger] steps[i] is WriteFile)
            &&& forall|i: int| 0 <= i < steps.len() ==> !(#[trigger] steps[i] is RemoveFile)
        }),
{
}

/// The property list names the label, the executable and the files for its output
/// and its errors, in that order.
pub proof fn law_property_list_names_the_executable(exe: Seq<char>, home: Option<Seq<char>>)
    ensures
        ({
            let logs = log_dir_of(home);
            let out = pathname::join_of(Style::Unix, logs, "daemon.out"@);
            let err = pathname::join_of(Style::Unix, logs, "daemon.err"@);
            plist_of(exe, home) == PLIST_LABEL@ + "com.membrane.daemon"@ + PLIST_EXE@ + exe
                + PLIST_OUT@ + out + PLIST_ERR@ + err + PLIST_END@
        }),
{
}

/// A user's agents and logs lie below their home directory, where launchd and the
/// user look.
pub proof fn law_agents_lie_below_home(home: Seq<char>)
    requires
        home.len() > 0,
        home.last() != '/',
    ensures
        agents_dir_of(Some(home)) == home.push('/') + "Library/LaunchAgents"@,
        log_dir_of(Some(home)) == home.push('/') + "Library/Logs/membrane"@,
{
    reveal_strlit("Library/LaunchAgents");
    reveal_strlit("Library/Logs/membrane");
    pathname::law_joined_behind_a_separator(home, "Library/LaunchAgents"@);
    pathname::law_joined_behind_a_separator(home, "Library/Logs/membrane"@);
}

/// Removing undoes installing: the service is taken out and the file that was
/// written is removed, and nothing of it is required to succeed.
pub proof fn law_removing_undoes_installing(exe: Seq<char>, home: Option<Seq<char>>, uid: u32)
    ensures
        ({
            let steps = uninstall_steps(home, uid);
            let written = install_steps(exe, home, uid)[2]->WriteFile_path;
            &&& steps.len() == 2
            &&& steps[0] == install_steps(exe, home, uid)[4]
            &&& steps[1] == service::StepModel::RemoveFile(written)
        }),
{
}

/// A service that launchd calls running runs, wherever in its text it says so; one
/// of which it names no state is stopped.
pub proof fn law_states_of_launchd(a: Seq<char>, b: Seq<char>, quiet: Seq<char>)
    requires
        !lines::contains_text(quiet, "state = "@),
    ensures
        state_named(a + "state = running"@ + b) is Running,
        state_named(quiet) is Stopped,
{
    reveal_strlit("state = running");
    reveal_strlit("state = ");
    let said = a + "state = running"@ + b;
    lines::law_containing_is_standing_inside(said, "state = running"@);
    assert(lines::contains_text(said, "state = running"@));
    if lines::contains_text(quiet, "state = running"@) {
        let i = choose|i: int| lines::occurs_at(quiet, "state = running"@, i);
        let found = quiet.subrange(i, i + "state = running"@.len());
        assert(quiet.subrange(i, i + "state = "@.len()) =~= found.take("state = "@.len() as int));
        assert("state = running"@.take("state = "@.len() as int) =~= "state = "@);
        assert(lines::occurs_at(quiet, "state = "@, i));
    }
}

/// Another state is told by the first line that names one.
pub proof fn law_first_state_is_told(printed: Seq<char>, before: Seq<Seq<char>>, line: Seq<char>, after: Seq<Seq<char>>)
    requires
        lines::lines_of(printed) == before.push(line) + after,
        forall|i: int|
            0 <= i < before.len() ==> !text::begins_with(
                text::trim_start(#[trigger] before[i]),
                "state ="@,
            ),
        text::begins_with(text::trim_start(line), "state ="@),
        lines::contains_text(printed, "state = "@),
        !lines::contains_text(printed, "state = running"@),
    ensures
        state_named(printed) == service::StatusModel::Unknown(text::trimmed(line)),
{
    lemma_no_state(before);
    let upto = before.push(line);
    let all = upto + after;
    assert(upto.drop_last() =~= before);
    assert(state_line(upto) == Some(line));
    assert(all.take(upto.len() as int) =~= upto);
    lemma_first_state(all, upto.len() as int);
}

proof fn lemma_no_state(all: Seq<Seq<char>>)
    requires
        forall|i: int|
            0 <= i < all.len() ==> !text::begins_with(
                text::trim_start(#[trigger] all[i]),
                "state ="@,
            ),
    ensures
        state_line(all) is None,
    decreases all.len(),
{
    if all.len() > 0 {
        let front = all.drop_last();
        assert forall|i: int| 0 <= i < front.len() implies !text::begins_with(
            text::trim_start(#[trigger] front[i]),
            "state ="@,
        ) by {
            assert(front[i] == all[i]);
        }
        lemma_no_state(front);
        assert(all[all.len() - 1] == all.last());
    }
}

} // verus!
