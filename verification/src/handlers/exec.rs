//! Run a shell command on the customer's machine.
//!
//! Policy must allow the command. Whatever policy says, its time is limited,
//! its output is cut at a limit, and of the daemon's environment it sees only
//! `PATH` and `HOME`. It runs in the first workspace root, or in the home
//! directory where there is none.
use vstd::prelude::*;

use crate::audit;
use crate::audit::{Event, OpResult};
use crate::config;
use crate::config::{Config, PolicyMode};
use crate::handlers;
use crate::pathname::Style;
use crate::text;
use crate::wire;
use crate::wire::{DaemonError, DaemonResult, ExecReq, ExecResp};

verus! {

/// How long to wait between two looks at a running command, in ms.
pub const POLL_MS: u64 = 25;

/// How to run a command.
#[derive(Debug)]
pub struct SpawnPlan {
    /// The command's time, in ms.
    pub timeout_ms: u32,
    /// How many bytes of stdout, and how many of stderr, are kept.
    pub max_output: u64,
    /// The workspace root to run in, if there is one.
    pub root: Option<String>,
}

/// What to do next for an exec.
pub enum ExecStep {
    /// Run the command so.
    Spawn(SpawnPlan),
    /// Record the event, and answer.
    Done { event: Event, result: DaemonResult<ExecResp> },
}

/// What an [`ExecStep`] says.
#[verifier::ext_equal]
pub enum ExecStepModel {
    Spawn { timeout_ms: u32, max_output: u64, root: Option<Seq<char>> },
    Done {
        event: audit::EventModel,
        result: Result<wire::ExecRespModel, wire::DaemonErrorModel>,
    },
}

impl View for ExecStep {
    type V = ExecStepModel;

    open spec fn view(&self) -> ExecStepModel {
        match self {
            ExecStep::Spawn(plan) => ExecStepModel::Spawn {
                timeout_ms: plan.timeout_ms,
                max_output: plan.max_output,
                root: text::said(plan.root),
            },
            ExecStep::Done { event, result } => ExecStepModel::Done {
                event: event@,
                result: wire::reply(*result),
            },
        }
    }
}

/// Why policy denies a command.
pub open spec fn denial(policy: config::PolicyModel) -> Seq<char> {
    match policy {
        config::PolicyModel::ReadOnly { .. } => "read-only mode"@,
        config::PolicyModel::WorkspaceAllowlistExec { .. } => "command not in allowlist"@,
        _ => "exec denied by policy"@,
    }
}

/// The event of a command that gave no result.
pub open spec fn exec_event(
    cmd: Seq<char>,
    duration_ms: u32,
    result: audit::OpResultModel,
) -> audit::EventModel {
    audit::EventModel::Exec {
        cmd,
        exit_code: None,
        duration_ms,
        timed_out: false,
        output_truncated: false,
        result,
    }
}

/// The first of the policy's roots.
pub open spec fn first_root(policy: config::PolicyModel) -> Option<Seq<char>> {
    match policy.roots() {
        Some(roots) => if roots.len() > 0 {
            Some(roots[0])
        } else {
            None
        },
        None => None,
    }
}

/// The first step of an exec.
pub open spec fn begin(
    cmd: Seq<char>,
    timeout_ms: u32,
    max_output_bytes: u64,
    cfg: config::ConfigModel,
    style: Style,
) -> ExecStepModel {
    if cfg.policy.allows_exec(cmd, style) {
        ExecStepModel::Spawn {
            timeout_ms: cfg.exec_timeout(timeout_ms),
            max_output: handlers::least(max_output_bytes, cfg.max_output_bytes),
            root: first_root(cfg.policy),
        }
    } else {
        ExecStepModel::Done {
            event: exec_event(
                cmd,
                0,
                audit::OpResultModel::Denied { reason: denial(cfg.policy) },
            ),
            result: Err(wire::DaemonErrorModel::PermissionDenied(denial(cfg.policy))),
        }
    }
}

/// Starts an exec: denies it, or says how to run the command.
pub fn handle(req: &ExecReq, cfg: &Config, style: Style) -> (res: ExecStep)
    ensures
        res@ == begin(req.command@, req.timeout_ms, req.max_output_bytes, cfg@, style),
{
    if !cfg.policy.exec_allowed(req.command.as_str(), style) {
        let reason = match &cfg.policy {
            PolicyMode::ReadOnly { .. } => "read-only mode",
            PolicyMode::WorkspaceAllowlistExec { .. } => "command not in allowlist",
            _ => "exec denied by policy",
        };
        return ExecStep::Done {
            event: Event::Exec {
                cmd: req.command.clone(),
                exit_code: None,
                duration_ms: 0,
                timed_out: false,
                output_truncated: false,
                result: OpResult::Denied { reason: reason.to_string() },
            },
            result: Err(DaemonError::PermissionDenied(reason.to_string())),
        };
    }
    let max_output: u64 = if req.max_output_bytes < cfg.max_output_bytes {
        req.max_output_bytes
    } else {
        cfg.max_output_bytes
    };
    let root = match cfg.policy.roots() {
        Some(roots) => {
            if roots.len() > 0 {
                Some(roots[0].clone())
            } else {
                None
            }
        },
        None => None,
    };
    ExecStep::Spawn(
        SpawnPlan {
            timeout_ms: cfg.effective_exec_timeout_ms(req.timeout_ms),
            max_output,
            root,
        },
    )
}

/// The arguments that run a command in the shell, the shell first.
pub fn shell_command(cmd_str: &str) -> (res: Vec<String>)
    ensures
        config::texts(res@) == seq!["bash"@, "-c"@, cmd_str@],
{
    let mut args: Vec<String> = Vec::new();
    args.push("bash".to_string());
    args.push("-c".to_string());
    args.push(cmd_str.to_string());
    assert(config::texts(args@) =~= seq!["bash"@, "-c"@, cmd_str@]);
    args
}

/// The arguments that run a command in the shell of Windows, the shell first.
pub fn windows_shell_command(cmd_str: &str) -> (res: Vec<String>)
    ensures
        config::texts(res@) == seq!["cmd"@, "/C"@, cmd_str@],
{
    let mut args: Vec<String> = Vec::new();
    args.push("cmd".to_string());
    args.push("/C".to_string());
    args.push(cmd_str.to_string());
    assert(config::texts(args@) =~= seq!["cmd"@, "/C"@, cmd_str@]);
    args
}

/// The directory that a command runs in.
pub open spec fn cwd_of(root: Option<Seq<char>>, home: Option<Seq<char>>) -> Seq<char> {
    match (root, home) {
        (Some(root), _) => root,
        (None, Some(home)) => home,
        (None, None) => "."@,
    }
}

/// The directory that a command runs in: the workspace root, else the home
/// directory, else the current one. `home` is given only if it is a directory.
pub fn working_dir(root: Option<String>, home: Option<String>) -> (res: String)
    ensures
        res@ == cwd_of(text::said(root), text::said(home)),
{
    match root {
        Some(root) => root,
        None => match home {
            Some(home) => home,
            None => ".".to_string(),
        },
    }
}

/// The environment of a command, given the daemon's `PATH` and `HOME`.
pub open spec fn env_of(path: Option<Seq<char>>, home: Option<Seq<char>>) -> Seq<
    (Seq<char>, Seq<char>),
> {
    let first = match path {
        Some(p) => seq![("PATH"@, p)],
        None => Seq::empty(),
    };
    match home {
        Some(h) => first.push(("HOME"@, h)),
        None => first,
    }
}

/// The names and values of some variables.
pub open spec fn vars_model(vars: Seq<(String, String)>) -> Seq<(Seq<char>, Seq<char>)> {
    vars.map_values(|v: (String, String)| (v.0@, v.1@))
}

/// The environment of a command: the daemon's `PATH` and `HOME`, as far as it
/// has them, and nothing else.
pub fn environment(path: Option<String>, home: Option<String>) -> (res: Vec<(String, String)>)
    ensures
        vars_model(res@) == env_of(text::said(path), text::said(home)),
{
    let mut vars: Vec<(String, String)> = Vec::new();
    assert(vars_model(vars@) =~= Seq::<(Seq<char>, Seq<char>)>::empty());
    match path {
        Some(p) => {
            vars.push(("PATH".to_string(), p));
            assert(vars_model(vars@) =~= seq![("PATH"@, p@)]);
        },
        None => {},
    }
    let ghost before = vars_model(vars@);
    match home {
        Some(h) => {
            vars.push(("HOME".to_string(), h));
            assert(vars_model(vars@) =~= before.push(("HOME"@, h@)));
        },
        None => {},
    }
    vars
}

// ── While the command runs ──────────────────────────────────────────

/// What a look at the command showed.
pub enum Wait {
    /// It has ended, with that exit code if it has one.
    Exited(Option<i32>),
    /// It is still running, after so many ms.
    Running(u128),
}

/// How a command ended.
#[derive(Clone, Copy, Debug)]
pub enum Outcome {
    /// By itself, with that exit code if it has one.
    Exited(Option<i32>),
    /// Its time was up.
    Killed,
}

impl Outcome {
    /// The exit code: a killed command has none.
    pub open spec fn code(self) -> Option<i32> {
        match self {
            Outcome::Exited(code) => code,
            Outcome::Killed => None,
        }
    }

    /// The exit code: a killed command has none.
    pub fn exit_code(&self) -> (res: Option<i32>)
        ensures
            res == self.code(),
    {
        match *self {
            Outcome::Exited(code) => code,
            Outcome::Killed => None,
        }
    }

    /// Whether its time was up.
    pub fn timed_out(&self) -> (res: bool)
        ensures
            res == (*self is Killed),
    {
        match *self {
            Outcome::Exited(_) => false,
            Outcome::Killed => true,
        }
    }
}

/// What to do after a look at the command.
pub enum Poll {
    /// Stop waiting, and collect its output. If the outcome is that the command
    /// is killed, kill it first.
    Collect(Outcome),
    /// Look again after so many ms.
    Sleep(u64),
}

/// What to do after a look at the command.
pub open spec fn polled(timeout_ms: u32, wait: Wait) -> Poll {
    match wait {
        Wait::Exited(exit_code) => Poll::Collect(Outcome::Exited(exit_code)),
        Wait::Running(elapsed) => if elapsed >= timeout_ms {
            Poll::Collect(Outcome::Killed)
        } else {
            Poll::Sleep(POLL_MS)
        },
    }
}

/// Decides what to do after a look at the command.
pub fn poll(timeout_ms: u32, wait: Wait) -> (res: Poll)
    ensures
        res == polled(timeout_ms, wait),
{
    match wait {
        Wait::Exited(exit_code) => Poll::Collect(Outcome::Exited(exit_code)),
        Wait::Running(elapsed) => {
            if elapsed >= timeout_ms as u128 {
                Poll::Collect(Outcome::Killed)
            } else {
                Poll::Sleep(POLL_MS)
            }
        },
    }
}

/// What was kept of a stream, and whether there was more.
pub struct Capture {
    /// How many bytes are kept at most.
    pub max: u64,
    pub buf: Vec<u8>,
    pub truncated: bool,
}

/// What a [`Capture`] holds.
#[verifier::ext_equal]
pub struct CaptureModel {
    pub kept: Seq<u8>,
    pub truncated: bool,
}

impl View for Capture {
    type V = CaptureModel;

    open spec fn view(&self) -> CaptureModel {
        CaptureModel { kept: self.buf@, truncated: self.truncated }
    }
}

/// What is kept of a whole stream.
pub open spec fn kept_of(stream: Seq<u8>, max: u64) -> CaptureModel {
    if stream.len() > max {
        CaptureModel { kept: stream.take(max as int), truncated: true }
    } else {
        CaptureModel { kept: stream, truncated: false }
    }
}

impl CaptureModel {
    /// What is kept after some more bytes of the stream.
    pub open spec fn after(self, chunk: Seq<u8>, max: u64) -> CaptureModel {
        if self.truncated {
            self
        } else {
            kept_of(self.kept + chunk, max)
        }
    }
}

impl Capture {
    /// No more is kept than may be.
    pub open spec fn wf(&self) -> bool {
        self.buf@.len() <= self.max
    }

    /// Nothing was read yet; at most `max` bytes are going to be kept.
    pub fn new(max: u64) -> (res: Capture)
        ensures
            res.wf(),
            res.max == max,
            res@ == kept_of(Seq::empty(), max),
    {
        Capture { max, buf: Vec::new(), truncated: false }
    }

    /// Takes the next bytes of the stream. What comes after the limit is
    /// dropped.
    pub fn read_capped(&mut self, chunk: &[u8])
        requires
            old(self).wf(),
        ensures
            final(self).wf(),
            final(self).max == old(self).max,
            final(self)@ == old(self)@.after(chunk@, old(self).max),
    {
        if self.truncated {
            return;
        }
        let room: u64 = self.max - self.buf.len() as u64;
        let n: u64 = chunk.len() as u64;
        let take: u64 = if n < room {
            n
        } else {
            room
        };
        self.buf.extend_from_slice(vstd::slice::slice_subrange(chunk, 0, take as usize));
        if take < n {
            self.truncated = true;
        }
        proof {
            let whole = old(self).buf@ + chunk@;
            assert(self.buf@ =~= whole.take(old(self).buf@.len() + take));
            assert(whole.take(whole.len() as int) =~= whole);
        }
    }
}

// ── When it has ended ───────────────────────────────────────────────

/// A time in ms, as far as 32 bits go.
pub open spec fn clamp_ms(ms: u128) -> u32 {
    if ms < u32::MAX {
        ms as u32
    } else {
        u32::MAX
    }
}

/// How an exec ends when the command has ended, after so many ms.
pub open spec fn after_end(
    cmd: Seq<char>,
    outcome: Outcome,
    stdout: CaptureModel,
    stderr: CaptureModel,
    elapsed_ms: u128,
) -> ExecStepModel {
    let timed_out = outcome is Killed;
    let output_truncated = stdout.truncated || stderr.truncated;
    let duration_ms = clamp_ms(elapsed_ms);
    ExecStepModel::Done {
        event: audit::EventModel::Exec {
            cmd,
            exit_code: outcome.code(),
            duration_ms,
            timed_out,
            output_truncated,
            result: if timed_out {
                audit::OpResultModel::Error { message: "timed out"@ }
            } else {
                audit::OpResultModel::Success
            },
        },
        result: if timed_out {
            Err(wire::DaemonErrorModel::Timeout)
        } else {
            Ok(
                wire::ExecRespModel {
                    stdout: stdout.kept,
                    stderr: stderr.kept,
                    exit_code: outcome.code(),
                    duration_ms,
                    timed_out,
                    output_truncated,
                },
            )
        },
    }
}

/// How an exec ends that failed underway, after so many ms.
pub open spec fn after_failure(
    cmd: Seq<char>,
    message: Seq<char>,
    duration_ms: u32,
) -> ExecStepModel {
    ExecStepModel::Done {
        event: exec_event(cmd, duration_ms, audit::OpResultModel::Error { message }),
        result: Err(wire::DaemonErrorModel::Io(message)),
    }
}

/// Ends an exec with an error.
fn failure(req: &ExecReq, message: String, duration_ms: u32) -> (res: ExecStep)
    ensures
        res@ == after_failure(req.command@, message@, duration_ms),
{
    let told = message.clone();
    ExecStep::Done {
        event: Event::Exec {
            cmd: req.command.clone(),
            exit_code: None,
            duration_ms,
            timed_out: false,
            output_truncated: false,
            result: OpResult::Error { message: told },
        },
        result: Err(DaemonError::Io(message)),
    }
}

/// Ends an exec whose command could not be started.
pub fn spawn_failed(req: &ExecReq, message: String) -> (res: ExecStep)
    ensures
        res@ == after_failure(req.command@, message@, 0),
{
    failure(req, message, 0)
}

/// Ends an exec whose command could not be looked at any more. Only the low 32
/// bits of the time are recorded.
pub fn wait_failed(req: &ExecReq, message: String, elapsed_ms: u128) -> (res: ExecStep)
    ensures
        res@ == after_failure(req.command@, message@, (elapsed_ms % 0x1_0000_0000) as u32),
{
    failure(req, message, (elapsed_ms % 0x1_0000_0000u128) as u32)
}

/// Ends an exec whose command has ended or was killed.
pub fn finished(
    req: &ExecReq,
    outcome: Outcome,
    stdout: Capture,
    stderr: Capture,
    elapsed_ms: u128,
) -> (res: ExecStep)
    ensures
        res@ == after_end(req.command@, outcome, stdout@, stderr@, elapsed_ms),
{
    let timed_out = outcome.timed_out();
    let output_truncated = stdout.truncated || stderr.truncated;
    let duration_ms: u32 = if elapsed_ms < u32::MAX as u128 {
        elapsed_ms as u32
    } else {
        u32::MAX
    };
    let event = Event::Exec {
        cmd: req.command.clone(),
        exit_code: outcome.exit_code(),
        duration_ms,
        timed_out,
        output_truncated,
        result: if timed_out {
            OpResult::Error { message: "timed out".to_string() }
        } else {
            OpResult::Success
        },
    };
    let result = if timed_out {
        Err(DaemonError::Timeout)
    } else {
        Ok(
            ExecResp {
                stdout: stdout.buf,
                stderr: stderr.buf,
                exit_code: outcome.exit_code(),
                duration_ms,
                timed_out,
                output_truncated,
            },
        )
    };
    ExecStep::Done { event, result }
}

// ── Laws ────────────────────────────────────────────────────────────

/// The pieces of a stream, one after the other.
pub open spec fn whole_stream(chunks: Seq<Seq<u8>>) -> Seq<u8>
    decreases chunks.len(),
{
    if chunks.len() == 0 {
        Seq::empty()
    } else {
        whole_stream(chunks.drop_last()) + chunks.last()
    }
}

/// What is kept of a stream that came in those pieces.
pub open spec fn captured(chunks: Seq<Seq<u8>>, max: u64) -> CaptureModel
    decreases chunks.len(),
{
    if chunks.len() == 0 {
        kept_of(Seq::empty(), max)
    } else {
        captured(chunks.drop_last(), max).after(chunks.last(), max)
    }
}

/// Of a stream, in whatever pieces it comes, the first bytes up to the limit
/// are kept, and it counts as truncated exactly when it is longer.
pub proof fn law_output_is_capped(chunks: Seq<Seq<u8>>, max: u64)
    ensures
        captured(chunks, max) == kept_of(whole_stream(chunks), max),
        captured(chunks, max).kept.len() <= max,
    decreases chunks.len(),
{
    if chunks.len() > 0 {
        law_output_is_capped(chunks.drop_last(), max);
        let before = whole_stream(chunks.drop_last());
        let whole = whole_stream(chunks);
        if before.len() > max {
            assert(whole.take(max as int) =~= before.take(max as int));
        }
    }
}

/// A command that policy denies is not run; it is answered, and recorded, as
/// denied, with one reason in both.
pub proof fn law_denied_exec_is_not_run(
    cmd: Seq<char>,
    timeout_ms: u32,
    max_output_bytes: u64,
    cfg: config::ConfigModel,
    style: Style,
)
    ensures
        begin(cmd, timeout_ms, max_output_bytes, cfg, style) is Spawn <==> cfg.policy.allows_exec(
            cmd,
            style,
        ),
        !cfg.policy.allows_exec(cmd, style) ==> {
            let end = begin(cmd, timeout_ms, max_output_bytes, cfg, style);
            &&& end->event->Exec_result == (audit::OpResultModel::Denied {
                reason: denial(cfg.policy),
            })
            &&& end->result == Err::<wire::ExecRespModel, wire::DaemonErrorModel>(
                wire::DaemonErrorModel::PermissionDenied(denial(cfg.policy)),
            )
        },
{
}

/// What a command may use is bounded by the configuration, whatever the
/// request says: its time, and the output kept of it.
pub proof fn law_exec_is_limited(
    cmd: Seq<char>,
    timeout_ms: u32,
    max_output_bytes: u64,
    cfg: config::ConfigModel,
    style: Style,
)
    requires
        begin(cmd, timeout_ms, max_output_bytes, cfg, style) is Spawn,
    ensures
        ({
            let plan = begin(cmd, timeout_ms, max_output_bytes, cfg, style);
            &&& plan->timeout_ms <= cfg.max_exec_timeout_ms
            &&& plan->max_output <= cfg.max_output_bytes
            &&& plan->max_output <= max_output_bytes
        }),
{
}

/// A confined daemon runs its commands in the workspace: in the first root, if
/// the policy names a root.
pub proof fn law_exec_runs_in_workspace(
    cmd: Seq<char>,
    timeout_ms: u32,
    max_output_bytes: u64,
    cfg: config::ConfigModel,
    style: Style,
    home: Option<Seq<char>>,
)
    requires
        cfg.policy.roots() is Some,
        cfg.policy.roots()->Some_0.len() > 0,
        begin(cmd, timeout_ms, max_output_bytes, cfg, style) is Spawn,
    ensures
        cwd_of(begin(cmd, timeout_ms, max_output_bytes, cfg, style)->root, home)
            == cfg.policy.roots()->Some_0[0],
{
}

/// A command sees no variable of the daemon's environment but `PATH` and
/// `HOME`.
pub proof fn law_environment_is_clean(path: Option<Seq<char>>, home: Option<Seq<char>>)
    ensures
        forall|i: int|
            0 <= i < env_of(path, home).len() ==> {
                ||| (#[trigger] env_of(path, home)[i]).0 == "PATH"@
                ||| env_of(path, home)[i].0 == "HOME"@
            },
{
}

/// Every exec ends in one event about its command, which says success exactly
/// when the answer does; a command whose time was up is answered with the
/// timeout.
pub proof fn law_exec_is_audited(
    cmd: Seq<char>,
    timeout_ms: u32,
    max_output_bytes: u64,
    cfg: config::ConfigModel,
    style: Style,
    outcome: Outcome,
    stdout: CaptureModel,
    stderr: CaptureModel,
    elapsed_ms: u128,
    message: Seq<char>,
    duration_ms: u32,
)
    ensures
        forall|end: ExecStepModel|
            end is Done && (end == begin(cmd, timeout_ms, max_output_bytes, cfg, style) || end
                == after_end(cmd, outcome, stdout, stderr, elapsed_ms) || end == after_failure(cmd, message, duration_ms)) ==> {
                &&& (#[trigger] end->event) is Exec
                &&& end->event->cmd == cmd
                &&& (end->event->Exec_result is Success <==> end->result is Ok)
            },
        outcome is Killed ==> after_end(cmd, outcome, stdout, stderr, elapsed_ms)->result == Err::<
            wire::ExecRespModel,
            wire::DaemonErrorModel,
        >(wire::DaemonErrorModel::Timeout),
{
}

/// Whatever its exit code, a command that ended by itself is answered with all
/// that was kept of its output: stdout and stderr, each in its own field, its exit
/// code, its time, and whether output was dropped. The same is recorded.
pub proof fn law_ended_command_is_answered(
    cmd: Seq<char>,
    exit_code: Option<i32>,
    stdout: CaptureModel,
    stderr: CaptureModel,
    elapsed_ms: u128,
)
    ensures
        ({
            let end = after_end(cmd, Outcome::Exited(exit_code), stdout, stderr, elapsed_ms);
            let dropped = stdout.truncated || stderr.truncated;
            &&& end is Done
            &&& end->result is Ok
            &&& end->result->Ok_0.stdout == stdout.kept
            &&& end->result->Ok_0.stderr == stderr.kept
            &&& end->result->Ok_0.exit_code == exit_code
            &&& end->result->Ok_0.output_truncated == dropped
            &&& !end->result->Ok_0.timed_out
            &&& elapsed_ms <= u32::MAX ==> end->result->Ok_0.duration_ms == elapsed_ms
            &&& elapsed_ms > u32::MAX ==> end->result->Ok_0.duration_ms == u32::MAX
            &&& end->event == (audit::EventModel::Exec {
                cmd,
                exit_code,
                duration_ms: end->result->Ok_0.duration_ms,
                timed_out: false,
                output_truncated: dropped,
                result: audit::OpResultModel::Success,
            })
        }),
{
}

/// What a command writes comes back: its output, in whatever pieces it was read,
/// is answered in full where it is within the limit, and else its beginning.
pub proof fn law_output_comes_back(
    cmd: Seq<char>,
    exit_code: Option<i32>,
    out: Seq<Seq<u8>>,
    err: Seq<Seq<u8>>,
    max: u64,
    elapsed_ms: u128,
)
    ensures
        ({
            let end = after_end(
                cmd,
                Outcome::Exited(exit_code),
                captured(out, max),
                captured(err, max),
                elapsed_ms,
            );
            let (a, b) = (whole_stream(out), whole_stream(err));
            let resp = end->result->Ok_0;
            &&& end->result is Ok
            &&& resp.stdout == if a.len() <= max {
                a
            } else {
                a.take(max as int)
            }
            &&& resp.stderr == if b.len() <= max {
                b
            } else {
                b.take(max as int)
            }
            &&& resp.output_truncated <==> a.len() > max || b.len() > max
        }),
{
    law_output_is_capped(out, max);
    law_output_is_capped(err, max);
}

/// A command whose time was up is answered with the timeout, and recorded so,
/// without an exit code.
pub proof fn law_killed_command_is_a_timeout(
    cmd: Seq<char>,
    stdout: CaptureModel,
    stderr: CaptureModel,
    elapsed_ms: u128,
)
    ensures
        ({
            let end = after_end(cmd, Outcome::Killed, stdout, stderr, elapsed_ms);
            &&& end is Done
            &&& end->result == Err::<wire::ExecRespModel, wire::DaemonErrorModel>(
                wire::DaemonErrorModel::Timeout,
            )
            &&& end->event is Exec
            &&& end->event->cmd == cmd
            &&& end->event->exit_code is None
            &&& end->event->timed_out
            &&& end->event->output_truncated == (stdout.truncated || stderr.truncated)
            &&& elapsed_ms <= u32::MAX ==> end->event->duration_ms == elapsed_ms
            &&& end->event->Exec_result == (audit::OpResultModel::Error { message: "timed out"@ })
        }),
{
}

/// A command that could not be run is answered, and recorded, with the system's
/// own message.
pub proof fn law_failed_command_says_why(
    cmd: Seq<char>,
    message: Seq<char>,
    duration_ms: u32,
)
    ensures
        ({
            let end = after_failure(cmd, message, duration_ms);
            &&& end is Done
            &&& end->result == Err::<wire::ExecRespModel, wire::DaemonErrorModel>(
                wire::DaemonErrorModel::Io(message),
            )
            &&& end->event == (audit::EventModel::Exec {
                cmd,
                exit_code: None,
                duration_ms,
                timed_out: false,
                output_truncated: false,
                result: audit::OpResultModel::Error { message },
            })
        }),
{
}

/// An allowed command is run as it was asked for, as far as the configuration
/// goes: with the time requested, or all that the configuration gives if none or
/// more was requested; with the output requested, or what the configuration gives
/// if more was requested; in the first root, if there is one.
pub proof fn law_allowed_command_is_run(
    cmd: Seq<char>,
    timeout_ms: u32,
    max_output_bytes: u64,
    cfg: config::ConfigModel,
    style: Style,
)
    requires
        cfg.policy.allows_exec(cmd, style),
    ensures
        ({
            let plan = begin(cmd, timeout_ms, max_output_bytes, cfg, style);
            &&& plan is Spawn
            &&& plan->timeout_ms == if 0 < timeout_ms <= cfg.max_exec_timeout_ms {
                timeout_ms
            } else {
                cfg.max_exec_timeout_ms
            }
            &&& plan->max_output == if max_output_bytes <= cfg.max_output_bytes {
                max_output_bytes
            } else {
                cfg.max_output_bytes
            }
            &&& cfg.policy.roots() is None ==> plan->root is None
            &&& cfg.policy.roots() matches Some(roots) ==> {
                &&& roots.len() == 0 ==> plan->root is None
                &&& roots.len() > 0 ==> plan->root == Some(roots[0])
            }
        }),
{
}

/// A denied command is told why: because the daemon is read-only, or because the
/// command is not on the allowlist.
pub proof fn law_denied_command_says_why(
    cmd: Seq<char>,
    timeout_ms: u32,
    max_output_bytes: u64,
    cfg: config::ConfigModel,
    style: Style,
)
    requires
        !cfg.policy.allows_exec(cmd, style),
    ensures
        ({
            let end = begin(cmd, timeout_ms, max_output_bytes, cfg, style);
            let why = if cfg.policy is ReadOnly {
                "read-only mode"@
            } else {
                "command not in allowlist"@
            };
            &&& end is Done
            &&& cfg.policy is ReadOnly || cfg.policy is WorkspaceAllowlistExec
            &&& end->result == Err::<wire::ExecRespModel, wire::DaemonErrorModel>(
                wire::DaemonErrorModel::PermissionDenied(why),
            )
            &&& end->event == (audit::EventModel::Exec {
                cmd,
                exit_code: None,
                duration_ms: 0,
                timed_out: false,
                output_truncated: false,
                result: audit::OpResultModel::Denied { reason: why },
            })
        }),
{
}

/// A command runs in the root that it was given, else at home, else where the
/// daemon is.
pub proof fn law_command_runs_somewhere(root: Seq<char>, home: Seq<char>)
    ensures
        cwd_of(Some(root), Some(home)) == root,
        cwd_of(Some(root), None) == root,
        cwd_of(None, Some(home)) == home,
        cwd_of(None, None) == "."@,
{
}

/// A command finds its programs and its home: `PATH` and `HOME` are passed on
/// unchanged, each exactly once, if the daemon has them, and are missing if not.
pub proof fn law_path_and_home_are_passed_on(path: Option<Seq<char>>, home: Option<Seq<char>>)
    ensures
        path matches Some(p) ==> env_of(path, home).contains(("PATH"@, p)),
        home matches Some(h) ==> env_of(path, home).contains(("HOME"@, h)),
        env_of(path, home).len() == (if path is Some {
            1int
        } else {
            0
        }) + (if home is Some {
            1int
        } else {
            0
        }),
{
    let env = env_of(path, home);
    if path is Some {
        assert(env[0] == ("PATH"@, path->Some_0));
    }
    if home is Some {
        assert(env[env.len() - 1] == ("HOME"@, home->Some_0));
    }
}

/// A command has all of its time and no more: as long as it runs within its time
/// it is looked at again, forty times a second; once its time is up it is killed;
/// and whenever it has ended by itself, in time or late, it is not, and its exit
/// code stays.
pub proof fn law_command_has_its_time(timeout_ms: u32, elapsed: u128, exit_code: Option<i32>)
    ensures
        elapsed < timeout_ms ==> polled(timeout_ms, Wait::Running(elapsed)) == Poll::Sleep(25),
        elapsed >= timeout_ms ==> polled(timeout_ms, Wait::Running(elapsed)) == Poll::Collect(
            Outcome::Killed,
        ),
        polled(timeout_ms, Wait::Exited(exit_code)) == Poll::Collect(Outcome::Exited(exit_code)),
{
}

/// A command that ended by itself has the exit code that it ended with; a killed
/// one has none.
pub proof fn law_exit_codes(exit_code: Option<i32>)
    ensures
        Outcome::Exited(exit_code).code() == exit_code,
        Outcome::Killed.code() is None,
{
}

/// Of a stream nothing is kept before it is read, all of it up to the limit, and
/// exactly its beginning beyond.
pub proof fn law_kept_of_a_stream(stream: Seq<u8>, max: u64)
    ensures
        stream.len() <= max ==> kept_of(stream, max).kept == stream && !kept_of(
            stream,
            max,
        ).truncated,
        stream.len() > max ==> kept_of(stream, max).kept == stream.take(max as int) && kept_of(
            stream,
            max,
        ).truncated,
{
}

/// What the parts of a step and of a capture say is what they hold.
pub proof fn law_steps_say_what_they_hold(plan: SpawnPlan, capture: Capture)
    ensures
        ExecStep::Spawn(plan)@ == (ExecStepModel::Spawn {
            timeout_ms: plan.timeout_ms,
            max_output: plan.max_output,
            root: match plan.root {
                Some(root) => Some(root@),
                None => None,
            },
        }),
        capture@.kept == capture.buf@,
        capture@.truncated == capture.truncated,
{
}

} // verus!
