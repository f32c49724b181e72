//! RPC handlers.
//!
//! A handler decides; whoever drives it touches the disk and runs commands.
//! Its first function takes the request and the policy and says what to do
//! first, the others take what came of it, until there is an answer and an
//! event for the audit log.
use vstd::prelude::*;

use crate::audit;
use crate::audit::Event;
use crate::config;
use crate::config::Config;
use crate::pathname;
use crate::resolve::Resolution;
use crate::wire;
use crate::wire::{DaemonError, Request, Response};

pub mod exec;
pub mod list_dir;
pub mod ping;
pub mod read_file;
pub mod write_file;

verus! {

/// The kinds of I/O failure that are told apart.
#[derive(Debug, Clone, Copy, PartialEq, Eq, Structural)]
pub enum IoKind {
    NotFound,
    PermissionDenied,
    Other,
}

/// A failed I/O operation.
#[derive(Debug)]
pub struct IoFailure {
    pub kind: IoKind,
    pub message: String,
}

/// What the audit log says of a path that could not be accessed.
pub open spec fn access_message(e: IoFailure) -> Seq<char> {
    match e.kind {
        IoKind::NotFound => "not found"@,
        IoKind::PermissionDenied => "permission denied"@,
        IoKind::Other => e.message@,
    }
}

/// What the cloud is told of a path that could not be accessed.
pub open spec fn access_error(e: IoFailure, path: Seq<char>) -> wire::DaemonErrorModel {
    match e.kind {
        IoKind::NotFound => wire::DaemonErrorModel::NotFound(path),
        IoKind::PermissionDenied => wire::DaemonErrorModel::PermissionDenied(path),
        IoKind::Other => wire::DaemonErrorModel::Io(e.message@),
    }
}

/// The error for a failed operation on `path`.
pub fn daemon_error_from_io(e: &IoFailure, path: String) -> (res: DaemonError)
    ensures
        res@ == access_error(*e, path@),
{
    match e.kind {
        IoKind::NotFound => DaemonError::NotFound(path),
        IoKind::PermissionDenied => DaemonError::PermissionDenied(path),
        IoKind::Other => DaemonError::Io(e.message.clone()),
    }
}

/// What a path that could not be accessed comes to: the message for the audit
/// log, and the error for the cloud.
pub fn access_failure(e: IoFailure, path: &str) -> (res: (String, DaemonError))
    ensures
        res.0@ == access_message(e),
        res.1@ == access_error(e, path@),
{
    let error = daemon_error_from_io(&e, path.to_string());
    let message = match e.kind {
        IoKind::NotFound => "not found".to_string(),
        IoKind::PermissionDenied => "permission denied".to_string(),
        IoKind::Other => e.message,
    };
    (message, error)
}

/// The smaller of what a request and the configuration allow.
pub open spec fn least(a: u64, b: u64) -> u64 {
    if a < b {
        a
    } else {
        b
    }
}

// ── Dispatch ────────────────────────────────────────────────────────

/// What to do next for a request.
pub enum Step {
    Read(read_file::ReadStep),
    Write(write_file::WriteStep),
    List(list_dir::ListStep),
    Exec(self::exec::ExecStep),
    Pong,
}

/// What a [`Step`] says.
#[verifier::ext_equal]
pub enum StepModel {
    Read(read_file::ReadStepModel),
    Write(write_file::WriteStepModel),
    List(list_dir::ListStepModel),
    Exec(self::exec::ExecStepModel),
    Pong,
}

impl View for Step {
    type V = StepModel;

    open spec fn view(&self) -> StepModel {
        match self {
            Step::Read(step) => StepModel::Read(step@),
            Step::Write(step) => StepModel::Write(step@),
            Step::List(step) => StepModel::List(step@),
            Step::Exec(step) => StepModel::Exec(step@),
            Step::Pong => StepModel::Pong,
        }
    }
}

impl StepModel {
    /// How the request ends, if this is its last step: the event for the audit
    /// log, where it is one that is logged, and the answer.
    pub open spec fn ending(self) -> Option<(Option<audit::EventModel>, wire::ResponseModel)> {
        match self {
            StepModel::Read(read_file::ReadStepModel::Done { event, result }) => Some(
                (Some(event), wire::ResponseModel::ReadFile(result)),
            ),
            StepModel::Write(write_file::WriteStepModel::Done { event, result }) => Some(
                (Some(event), wire::ResponseModel::WriteFile(result)),
            ),
            StepModel::List(list_dir::ListStepModel::Done { event, result }) => Some(
                (Some(event), wire::ResponseModel::ListDir(result)),
            ),
            StepModel::Exec(self::exec::ExecStepModel::Done { event, result }) => Some(
                (Some(event), wire::ResponseModel::Exec(result)),
            ),
            StepModel::Pong => Some((None, wire::ResponseModel::Pong)),
            _ => None,
        }
    }
}

/// The first step for a request.
pub open spec fn begin(
    req: Request,
    cfg: config::ConfigModel,
    resolution: Resolution,
) -> StepModel {
    match req {
        Request::ReadFile(r) => StepModel::Read(
            read_file::begin(r.path@, r.max_bytes, cfg, resolution),
        ),
        Request::WriteFile(r) => StepModel::Write(write_file::begin(r@, cfg, resolution)),
        Request::ListDir(r) => StepModel::List(list_dir::begin(r.path@, cfg, resolution)),
        Request::Exec(r) => StepModel::Exec(
            self::exec::begin(
                r.command@,
                r.timeout_ms,
                r.max_output_bytes,
                cfg,
                resolution.style,
            ),
        ),
        Request::Ping => StepModel::Pong,
    }
}

/// The path that a request is about, if it is about one.
pub fn path_of(req: &Request) -> (res: Option<&str>)
    ensures
        match (*req, res) {
            (Request::ReadFile(r), Some(path)) => path@ == r.path@,
            (Request::WriteFile(r), Some(path)) => path@ == r.path@,
            (Request::ListDir(r), Some(path)) => path@ == r.path@,
            (Request::Exec(_), None) => true,
            (Request::Ping, None) => true,
            _ => false,
        },
{
    match req {
        Request::ReadFile(r) => Some(r.path.as_str()),
        Request::WriteFile(r) => Some(r.path.as_str()),
        Request::ListDir(r) => Some(r.path.as_str()),
        Request::Exec(_) => None,
        Request::Ping => None,
    }
}

/// Dispatches a request to its handler, given what resolving its path gave.
pub fn dispatch(req: &Request, cfg: &Config, resolution: &Resolution) -> (res: Step)
    ensures
        res@ == begin(*req, cfg@, *resolution),
{
    match req {
        Request::ReadFile(r) => Step::Read(read_file::handle(r, cfg, resolution)),
        Request::WriteFile(r) => Step::Write(write_file::handle(r, cfg, resolution)),
        Request::ListDir(r) => Step::List(list_dir::handle(r, cfg, resolution)),
        Request::Exec(r) => Step::Exec(self::exec::handle(r, cfg, resolution.style)),
        Request::Ping => {
            ping::handle();
            Step::Pong
        },
    }
}

/// What [`finish`] gives.
pub enum Progress {
    /// There is still this to do.
    Pending(Step),
    /// Record the event, if there is one, and send the response.
    Answered { event: Option<Event>, response: Response },
}

/// Takes the answer out of a request's last step.
pub fn finish(step: Step) -> (res: Progress)
    ensures
        match (res, step@.ending()) {
            (Progress::Pending(s), None) => s == step,
            (Progress::Answered { event, response }, Some((e, r))) => {
                &&& response@ == r
                &&& event is Some <==> e is Some
                &&& event matches Some(v) ==> e == Some(v@)
            },
            _ => false,
        },
{
    match step {
        Step::Read(read_file::ReadStep::Done { event, result }) => Progress::Answered {
            event: Some(event),
            response: Response::ReadFile(result),
        },
        Step::Write(write_file::WriteStep::Done { event, result }) => Progress::Answered {
            event: Some(event),
            response: Response::WriteFile(result),
        },
        Step::List(list_dir::ListStep::Done { event, result }) => Progress::Answered {
            event: Some(event),
            response: Response::ListDir(result),
        },
        Step::Exec(self::exec::ExecStep::Done { event, result }) => Progress::Answered {
            event: Some(event),
            response: Response::Exec(result),
        },
        Step::Pong => Progress::Answered { event: None, response: Response::Pong },
        step => Progress::Pending(step),
    }
}

// ── Laws ────────────────────────────────────────────────────────────

/// A read-only daemon writes nothing and runs nothing: every write and every
/// exec is answered at once, with a refusal.
pub proof fn law_read_only_changes_nothing(
    req: Request,
    cfg: config::ConfigModel,
    resolution: Resolution,
)
    requires
        cfg.policy is ReadOnly,
        req is WriteFile || req is Exec,
    ensures
        begin(req, cfg, resolution).ending() matches Some((event, response)) && {
            &&& event == Some(
                match req {
                    Request::WriteFile(r) => write_file::write_event(
                        r@,
                        audit::OpResultModel::Denied { reason: "read-only mode"@ },
                    ),
                    Request::Exec(r) => self::exec::exec_event(
                        r.command@,
                        0,
                        audit::OpResultModel::Denied { reason: "read-only mode"@ },
                    ),
                    _ => arbitrary(),
                },
            )
            &&& response == match req {
                Request::WriteFile(_) => wire::ResponseModel::WriteFile(
                    Err(wire::DaemonErrorModel::PermissionDenied("read-only mode"@)),
                ),
                _ => wire::ResponseModel::Exec(
                    Err(wire::DaemonErrorModel::PermissionDenied("read-only mode"@)),
                ),
            }
        },
{
}

/// The cloud asks, the daemon decides: nothing is done for a request, no file
/// examined or read or replaced and no command run, unless policy allows it.
pub proof fn law_nothing_is_done_unless_allowed(
    req: Request,
    cfg: config::ConfigModel,
    resolution: Resolution,
)
    requires
        begin(req, cfg, resolution).ending() is None,
    ensures
        match req {
            Request::ReadFile(r) => cfg.policy.allows_path(r.path@, resolution),
            Request::WriteFile(r) => {
                &&& cfg.policy.allows_writes()
                &&& cfg.policy.allows_path(r.path@, resolution)
            },
            Request::ListDir(r) => cfg.policy.allows_path(r.path@, resolution),
            Request::Exec(r) => cfg.policy.allows_exec(r.command@, resolution.style),
            Request::Ping => false,
        },
{
}

/// A request about a path that policy does not allow is answered at once, and
/// recorded, without a look at the disk.
pub proof fn law_outside_is_refused(
    req: Request,
    cfg: config::ConfigModel,
    resolution: Resolution,
    path: Seq<char>,
)
    requires
        match req {
            Request::ReadFile(r) => path == r.path@,
            Request::WriteFile(r) => path == r.path@,
            Request::ListDir(r) => path == r.path@,
            _ => false,
        },
        !cfg.policy.allows_path(path, resolution),
    ensures
        begin(req, cfg, resolution).ending() matches Some((event, response)) && {
            &&& event is Some
            &&& event->Some_0.outcome() matches Some(audit::OpResultModel::Denied { .. })
            &&& match response {
                wire::ResponseModel::ReadFile(r) => r is Err,
                wire::ResponseModel::WriteFile(r) => r is Err,
                wire::ResponseModel::ListDir(r) => r is Err,
                _ => false,
            }
        },
{
}

/// Nothing is answered without a record of it, but for a ping.
pub proof fn law_only_pings_go_unrecorded(step: StepModel)
    ensures
        step.ending() matches Some((event, response)) ==> (event is None <==> response is Pong),
{
}

/// What was read can be written back: the mtime that a read answers with passes
/// the check of a write to the same path, as long as the file still has the
/// mtime that the read found.
pub proof fn law_read_mtime_passes(
    path: Seq<char>,
    max_bytes: u64,
    cfg: config::ConfigModel,
    resolution: Resolution,
    stat: read_file::FileStat,
    data: Vec<u8>,
    write: write_file::WriteReqModel,
)
    requires
        cfg.policy.allows_writes(),
        pathname::has_parent_dir(resolution.style, vstd::utf8::encode_utf8(path)),
        ({
            let read = read_file::ending(path, max_bytes, cfg, resolution, Ok(stat), Ok(data));
            &&& read->result is Ok
            &&& write.path == path
            &&& write.if_mtime_matches == Some(read->result->Ok_0.mtime_unix_ns)
        }),
    ensures
        write_file::replaces(write, cfg, resolution, Some(stat.mtime)),
{
}

/// Each request goes to its own handler, with what it says and nothing else.
pub proof fn law_requests_go_to_their_handlers(
    req: Request,
    cfg: config::ConfigModel,
    resolution: Resolution,
)
    ensures
        match req {
            Request::ReadFile(r) => begin(req, cfg, resolution) == StepModel::Read(
                read_file::begin(r.path@, r.max_bytes, cfg, resolution),
            ),
            Request::WriteFile(r) => begin(req, cfg, resolution) == StepModel::Write(
                write_file::begin(
                    write_file::WriteReqModel {
                        path: r.path@,
                        data: r.data@,
                        if_mtime_matches: r.if_mtime_matches,
                    },
                    cfg,
                    resolution,
                ),
            ),
            Request::ListDir(r) => begin(req, cfg, resolution) == StepModel::List(
                list_dir::begin(r.path@, cfg, resolution),
            ),
            Request::Exec(r) => begin(req, cfg, resolution) == StepModel::Exec(
                self::exec::begin(
                    r.command@,
                    r.timeout_ms,
                    r.max_output_bytes,
                    cfg,
                    resolution.style,
                ),
            ),
            Request::Ping => begin(req, cfg, resolution).ending() == Some(
                (None::<audit::EventModel>, wire::ResponseModel::Pong),
            ),
        },
{
}

/// What a handler ends with is what is recorded and answered, in the response of
/// its own kind; a step that is not its last is neither.
pub proof fn law_endings_are_passed_on(
    read: read_file::ReadStepModel,
    write: write_file::WriteStepModel,
    list: list_dir::ListStepModel,
    run: self::exec::ExecStepModel,
)
    ensures
        StepModel::Read(read).ending() == if read is Done {
            Some((Some(read->event), wire::ResponseModel::ReadFile(read->result)))
        } else {
            None
        },
        StepModel::Write(write).ending() == if write is Done {
            Some((Some(write->event), wire::ResponseModel::WriteFile(write->result)))
        } else {
            None
        },
        StepModel::List(list).ending() == if list is Done {
            Some((Some(list->event), wire::ResponseModel::ListDir(list->result)))
        } else {
            None
        },
        StepModel::Exec(run).ending() == if run is Done {
            Some((Some(run->event), wire::ResponseModel::Exec(run->result)))
        } else {
            None
        },
{
}

/// What policy allows is done: for a request that it allows, the daemon goes on to
/// the disk or runs the command, unless a write names a path that cannot be
/// written.
pub proof fn law_allowed_requests_are_served(
    req: Request,
    cfg: config::ConfigModel,
    resolution: Resolution,
)
    requires
        match req {
            Request::ReadFile(r) => cfg.policy.allows_path(r.path@, resolution),
            Request::ListDir(r) => cfg.policy.allows_path(r.path@, resolution),
            Request::WriteFile(r) => {
                &&& !(cfg.policy is ReadOnly)
                &&& cfg.policy.allows_path(r.path@, resolution)
                &&& pathname::has_parent_dir(
                    resolution.style,
                    vstd::utf8::encode_utf8(r.path@),
                )
            },
            Request::Exec(r) => cfg.policy.allows_exec(r.command@, resolution.style),
            Request::Ping => false,
        },
    ensures
        begin(req, cfg, resolution).ending() is None,
{
}

/// The smaller of two limits is the one that holds.
pub proof fn law_least_is_the_smaller(a: u64, b: u64)
    ensures
        least(a, b) <= a,
        least(a, b) <= b,
        least(a, b) == a || least(a, b) == b,
{
}

} // verus!
