//! Write or overwrite a file on the customer's disk.
//!
//! Checks, in order: writes are allowed at all; the path is allowed; if the
//! request names an mtime, the file still has it. The write itself replaces
//! the file in one step or leaves it as it was.
use vstd::prelude::*;

use crate::audit;
use crate::audit::{Event, OpResult};
use crate::config;
use crate::config::Config;
use crate::handlers;
use crate::handlers::read_file;
use crate::handlers::read_file::Mtime;
use crate::handlers::IoFailure;
use crate::pathname;
use crate::pathname::Style;
use crate::resolve::Resolution;
use crate::text;
use crate::wire;
use crate::wire::{DaemonError, DaemonResult, WriteFileReq, WriteFileResp};

verus! {

/// What to do next for a write.
pub enum WriteStep {
    /// Examine the file for its mtime.
    Stat,
    /// Replace the file's contents by these bytes, then examine it for its new
    /// mtime.
    Store { data: Vec<u8> },
    /// Record the event, and answer.
    Done { event: Event, result: DaemonResult<WriteFileResp> },
}

/// What a [`WriteStep`] says.
#[verifier::ext_equal]
pub enum WriteStepModel {
    Stat,
    Store { data: Seq<u8> },
    Done { event: audit::EventModel, result: Result<i64, wire::DaemonErrorModel> },
}

impl View for WriteStep {
    type V = WriteStepModel;

    open spec fn view(&self) -> WriteStepModel {
        match self {
            WriteStep::Stat => WriteStepModel::Stat,
            WriteStep::Store { data } => WriteStepModel::Store { data: data@ },
            WriteStep::Done { event, result } => WriteStepModel::Done {
                event: event@,
                result: wire::reply(*result),
            },
        }
    }
}

/// What a [`WriteFileReq`] says.
#[verifier::ext_equal]
pub struct WriteReqModel {
    pub path: Seq<char>,
    pub data: Seq<u8>,
    pub if_mtime_matches: Option<i64>,
}

impl View for WriteFileReq {
    type V = WriteReqModel;

    open spec fn view(&self) -> WriteReqModel {
        WriteReqModel {
            path: self.path@,
            data: self.data@,
            if_mtime_matches: self.if_mtime_matches,
        }
    }
}

/// The event of a write that ended so.
pub open spec fn write_event(req: WriteReqModel, result: audit::OpResultModel) -> audit::EventModel {
    audit::EventModel::Write {
        path: req.path,
        bytes: req.data.len() as u64,
        mtime_check: req.if_mtime_matches is Some,
        result,
    }
}

/// A write that ended with an error.
pub open spec fn write_refused(
    req: WriteReqModel,
    result: audit::OpResultModel,
    error: wire::DaemonErrorModel,
) -> WriteStepModel {
    WriteStepModel::Done { event: write_event(req, result), result: Err(error) }
}

/// The step once every check has passed: a path without a parent directory
/// cannot be written.
pub open spec fn ready(req: WriteReqModel, style: Style) -> WriteStepModel {
    if pathname::has_parent_dir(style, vstd::utf8::encode_utf8(req.path)) {
        WriteStepModel::Store { data: req.data }
    } else {
        write_refused(
            req,
            audit::OpResultModel::Error { message: "no parent directory"@ },
            wire::DaemonErrorModel::Io("no parent directory"@),
        )
    }
}

/// The first step of a write.
pub open spec fn begin(
    req: WriteReqModel,
    cfg: config::ConfigModel,
    resolution: Resolution,
) -> WriteStepModel {
    if !cfg.policy.allows_writes() {
        write_refused(
            req,
            audit::OpResultModel::Denied { reason: "read-only mode"@ },
            wire::DaemonErrorModel::PermissionDenied("read-only mode"@),
        )
    } else if !cfg.policy.allows_path(req.path, resolution) {
        write_refused(
            req,
            audit::OpResultModel::Denied { reason: "path not in workspace"@ },
            wire::DaemonErrorModel::PathNotAllowed(req.path),
        )
    } else if req.if_mtime_matches is Some {
        WriteStepModel::Stat
    } else {
        ready(req, resolution.style)
    }
}

/// The step after the file was examined, which fails where there is none.
pub open spec fn after_stat(
    req: WriteReqModel,
    style: Style,
    found: Option<Mtime>,
) -> WriteStepModel {
    match req.if_mtime_matches {
        None => ready(req, style),
        Some(expected) => match found {
            Some(mtime) => {
                let actual = read_file::mtime_ns(mtime) as i64;
                if actual == expected {
                    ready(req, style)
                } else {
                    write_refused(
                        req,
                        audit::OpResultModel::Denied {
                            reason: "mtime mismatch: "@ + text::signed_decimal(expected as int)
                                + " vs "@ + text::signed_decimal(actual as int),
                        },
                        wire::DaemonErrorModel::MtimeMismatch { expected, actual },
                    )
                }
            },
            None => write_refused(
                req,
                audit::OpResultModel::Denied {
                    reason: "expected mtime "@ + text::signed_decimal(expected as int)
                        + " but file doesn't exist"@,
                },
                wire::DaemonErrorModel::MtimeMismatch { expected, actual: 0 },
            ),
        },
    }
}

/// The step after the file was replaced, with its mtime if it could be
/// examined then.
pub open spec fn after_store(
    req: WriteReqModel,
    stored: Result<Option<Mtime>, IoFailure>,
) -> WriteStepModel {
    match stored {
        Err(e) => write_refused(
            req,
            audit::OpResultModel::Error { message: e.message@ },
            handlers::access_error(e, req.path),
        ),
        Ok(found) => WriteStepModel::Done {
            event: write_event(req, audit::OpResultModel::Success),
            result: Ok(
                match found {
                    Some(mtime) => read_file::mtime_ns(mtime) as i64,
                    None => 0,
                },
            ),
        },
    }
}

/// The event of a write that ended so.
fn event_for(req: &WriteFileReq, result: OpResult) -> (res: Event)
    ensures
        res@ == write_event(req@, result@),
{
    Event::Write {
        path: req.path.clone(),
        bytes: req.data.len() as u64,
        mtime_check: req.if_mtime_matches.is_some(),
        result,
    }
}

/// Ends a write with an error.
fn refusal(req: &WriteFileReq, result: OpResult, error: DaemonError) -> (res: WriteStep)
    ensures
        res@ == write_refused(req@, result@, error@),
{
    WriteStep::Done { event: event_for(req, result), result: Err(error) }
}

/// Every check has passed.
fn proceed(req: &WriteFileReq, style: Style) -> (res: WriteStep)
    ensures
        res@ == ready(req@, style),
{
    if pathname::has_parent(style, req.path.as_str().as_bytes()) {
        let data = wire::copy_range(req.data.as_slice(), 0, req.data.len());
        proof {
            assert(data@ =~= req.data@);
        }
        WriteStep::Store { data }
    } else {
        refusal(
            req,
            OpResult::Error { message: "no parent directory".to_string() },
            DaemonError::Io("no parent directory".to_string()),
        )
    }
}

/// Starts a write: refuses it, asks for the file to be examined, or lets it be
/// replaced.
pub fn handle(req: &WriteFileReq, cfg: &Config, resolution: &Resolution) -> (res: WriteStep)
    ensures
        res@ == begin(req@, cfg@, *resolution),
{
    if !cfg.policy.writes_allowed() {
        return refusal(
            req,
            OpResult::Denied { reason: "read-only mode".to_string() },
            DaemonError::PermissionDenied("read-only mode".to_string()),
        );
    }
    if !cfg.policy.path_allowed(req.path.as_str(), resolution) {
        return refusal(
            req,
            OpResult::Denied { reason: "path not in workspace".to_string() },
            DaemonError::PathNotAllowed(req.path.clone()),
        );
    }
    if req.if_mtime_matches.is_some() {
        return WriteStep::Stat;
    }
    proceed(req, resolution.style)
}

/// Goes on after the file was examined: refuses the write if the file is not
/// the one that the request expects.
pub fn examined(req: &WriteFileReq, style: Style, found: Option<Mtime>) -> (res: WriteStep)
    ensures
        res@ == after_stat(req@, style, found),
{
    match req.if_mtime_matches {
        None => proceed(req, style),
        Some(expected) => match found {
            Some(mtime) => {
                let actual: i64 = read_file::mtime_unix_ns(mtime);
                if actual != expected {
                    let reason = text::text4(
                        "mtime mismatch: ",
                        text::signed_decimal_text(expected).as_str(),
                        " vs ",
                        text::signed_decimal_text(actual).as_str(),
                    );
                    refusal(
                        req,
                        OpResult::Denied { reason },
                        DaemonError::MtimeMismatch { expected, actual },
                    )
                } else {
                    proceed(req, style)
                }
            },
            // The request expects a file, and there is none.
            None => {
                let reason = text::text3(
                    "expected mtime ",
                    text::signed_decimal_text(expected).as_str(),
                    " but file doesn't exist",
                );
                refusal(
                    req,
                    OpResult::Denied { reason },
                    DaemonError::MtimeMismatch { expected, actual: 0 },
                )
            },
        },
    }
}

/// Ends a write, with the file's new mtime or with the error that replacing
/// the file gave.
pub fn stored(req: &WriteFileReq, outcome: Result<Option<Mtime>, IoFailure>) -> (res: WriteStep)
    ensures
        res@ == after_store(req@, outcome),
{
    match outcome {
        Err(e) => {
            let error = handlers::daemon_error_from_io(&e, req.path.clone());
            refusal(req, OpResult::Error { message: e.message }, error)
        },
        Ok(found) => {
            let new_mtime: i64 = match found {
                Some(mtime) => read_file::mtime_unix_ns(mtime),
                None => 0,
            };
            WriteStep::Done {
                event: event_for(req, OpResult::Success),
                result: Ok(WriteFileResp { mtime_unix_ns: new_mtime }),
            }
        },
    }
}

// ── Laws ────────────────────────────────────────────────────────────

/// How a write ends, given what examining and replacing the file give.
pub open spec fn ending(
    req: WriteReqModel,
    cfg: config::ConfigModel,
    resolution: Resolution,
    found: Option<Mtime>,
    stored: Result<Option<Mtime>, IoFailure>,
) -> WriteStepModel {
    let checked = match begin(req, cfg, resolution) {
        WriteStepModel::Stat => after_stat(req, resolution.style, found),
        step => step,
    };
    match checked {
        WriteStepModel::Store { .. } => after_store(req, stored),
        step => step,
    }
}

/// Whether a write gets as far as replacing the file.
pub open spec fn replaces(
    req: WriteReqModel,
    cfg: config::ConfigModel,
    resolution: Resolution,
    found: Option<Mtime>,
) -> bool {
    match begin(req, cfg, resolution) {
        WriteStepModel::Stat => after_stat(req, resolution.style, found) is Store,
        step => step is Store,
    }
}

/// Every write ends in one answer and one event, which names the path and the
/// bytes asked for and says success exactly when the answer does.
pub proof fn law_write_is_audited(
    req: WriteReqModel,
    cfg: config::ConfigModel,
    resolution: Resolution,
    found: Option<Mtime>,
    stored: Result<Option<Mtime>, IoFailure>,
)
    ensures
        ({
            let end = ending(req, cfg, resolution, found, stored);
            &&& end is Done
            &&& end->event is Write
            &&& end->event->Write_path == req.path
            &&& end->event->Write_bytes == req.data.len() as u64
            &&& end->event->mtime_check == (req.if_mtime_matches is Some)
            &&& (end->event->Write_result is Success <==> end->result is Ok)
        }),
{
}

/// What is written is what was asked for: a file whose contents are replaced holds
/// the bytes of the request.
pub proof fn law_request_is_stored(
    req: WriteReqModel,
    cfg: config::ConfigModel,
    resolution: Resolution,
    found: Option<Mtime>,
)
    ensures
        begin(req, cfg, resolution) matches WriteStepModel::Store { data } ==> data == req.data,
        after_stat(req, resolution.style, found) matches WriteStepModel::Store { data } ==> data
            == req.data,
{
}

/// Nothing is written that policy does not allow: a file is replaced only if
/// writes are allowed and the path is.
pub proof fn law_write_obeys_policy(
    req: WriteReqModel,
    cfg: config::ConfigModel,
    resolution: Resolution,
    found: Option<Mtime>,
)
    requires
        replaces(req, cfg, resolution, found),
    ensures
        cfg.policy.allows_writes(),
        cfg.policy.allows_path(req.path, resolution),
{
}

/// No lost writes: a request that names an mtime replaces only a file that is
/// there and has that mtime; otherwise it is answered with the mismatch.
pub proof fn law_no_lost_write(
    req: WriteReqModel,
    cfg: config::ConfigModel,
    resolution: Resolution,
    found: Option<Mtime>,
    stored: Result<Option<Mtime>, IoFailure>,
)
    requires
        req.if_mtime_matches is Some,
    ensures
        replaces(req, cfg, resolution, found) ==> {
            &&& found is Some
            &&& read_file::mtime_ns(found->Some_0) == req.if_mtime_matches->Some_0
        },
        cfg.policy.allows_writes() && cfg.policy.allows_path(req.path, resolution) && !(found is Some
            && read_file::mtime_ns(found->Some_0) == req.if_mtime_matches->Some_0) ==> {
            &&& !replaces(req, cfg, resolution, found)
            &&& ending(req, cfg, resolution, found, stored)->result == Err::<
                i64,
                wire::DaemonErrorModel,
            >(
                wire::DaemonErrorModel::MtimeMismatch {
                    expected: req.if_mtime_matches->Some_0,
                    actual: if found is Some {
                        read_file::mtime_ns(found->Some_0) as i64
                    } else {
                        0
                    },
                },
            )
        },
{
}

/// The mtime that a write answers with is one that the next write may name:
/// as long as the file is as that write left it, the next one passes the
/// check.
pub proof fn law_answered_mtime_passes(
    first: WriteReqModel,
    next: WriteReqModel,
    cfg: config::ConfigModel,
    resolution: Resolution,
    found: Option<Mtime>,
    left: Mtime,
)
    requires
        ending(first, cfg, resolution, found, Ok(Some(left)))->result is Ok,
        next.path == first.path,
        next.if_mtime_matches == Some(
            ending(first, cfg, resolution, found, Ok(Some(left)))->result->Ok_0,
        ),
    ensures
        replaces(next, cfg, resolution, Some(left)),
{
}

/// A write that is allowed is done: in every mode but the read-only one, a write
/// to a path that policy allows, and that has a parent directory, gets as far as
/// replacing the file by the bytes of the request, if it names no mtime or names
/// the one that the file has.
pub proof fn law_allowed_write_is_stored(
    req: WriteReqModel,
    cfg: config::ConfigModel,
    resolution: Resolution,
    found: Mtime,
)
    requires
        !(cfg.policy is ReadOnly),
        cfg.policy.allows_path(req.path, resolution),
        pathname::has_parent_dir(resolution.style, vstd::utf8::encode_utf8(req.path)),
        req.if_mtime_matches matches Some(expected) ==> expected == read_file::mtime_ns(found),
    ensures
        req.if_mtime_matches is None ==> begin(req, cfg, resolution) == (WriteStepModel::Store {
            data: req.data,
        }),
        req.if_mtime_matches is Some ==> begin(req, cfg, resolution) is Stat && after_stat(
            req,
            resolution.style,
            Some(found),
        ) == (WriteStepModel::Store { data: req.data }),
{
}

/// A write that was done is answered with the file's new time, and recorded with
/// the number of bytes written.
pub proof fn law_done_write_is_answered(
    req: WriteReqModel,
    left: Option<Mtime>,
)
    ensures
        ({
            let end = after_store(req, Ok(left));
            &&& end is Done
            &&& end->result is Ok
            &&& left matches Some(mtime) ==> end->result->Ok_0 == read_file::mtime_ns(mtime) as i64
            &&& left is None ==> end->result->Ok_0 == 0
            &&& end->event == (audit::EventModel::Write {
                path: req.path,
                bytes: req.data.len() as u64,
                mtime_check: req.if_mtime_matches is Some,
                result: audit::OpResultModel::Success,
            })
        }),
{
}

/// A write that could not be done is answered with what went wrong: not found, no
/// permission, or the system's own message.
pub proof fn law_failed_write_says_why(req: WriteReqModel, failure: IoFailure)
    ensures
        ({
            let end = after_store(req, Err(failure));
            &&& end is Done
            &&& end->result is Err
            &&& failure.kind == handlers::IoKind::NotFound ==> end->result->Err_0
                == wire::DaemonErrorModel::NotFound(req.path)
            &&& failure.kind == handlers::IoKind::PermissionDenied ==> end->result->Err_0
                == wire::DaemonErrorModel::PermissionDenied(req.path)
            &&& failure.kind == handlers::IoKind::Other ==> end->result->Err_0
                == wire::DaemonErrorModel::Io(failure.message@)
            &&& end->event == (audit::EventModel::Write {
                path: req.path,
                bytes: req.data.len() as u64,
                mtime_check: req.if_mtime_matches is Some,
                result: audit::OpResultModel::Error { message: failure.message@ },
            })
        }),
{
}

/// A write that policy refuses is answered with the refusal, and none of it is
/// done: for the mode first, then for the path.
pub proof fn law_refused_write_says_why(
    req: WriteReqModel,
    cfg: config::ConfigModel,
    resolution: Resolution,
)
    ensures
        cfg.policy is ReadOnly ==> begin(req, cfg, resolution) is Done && begin(
            req,
            cfg,
            resolution,
        )->result == Err::<i64, wire::DaemonErrorModel>(
            wire::DaemonErrorModel::PermissionDenied("read-only mode"@),
        ),
        !(cfg.policy is ReadOnly) && !cfg.policy.allows_path(req.path, resolution) ==> begin(
            req,
            cfg,
            resolution,
        ) is Done && begin(req, cfg, resolution)->result == Err::<i64, wire::DaemonErrorModel>(
            wire::DaemonErrorModel::PathNotAllowed(req.path),
        ),
{
}

/// A path without a parent directory is the only one that is refused though policy
/// allows it and no mtime stands against it.
pub proof fn law_only_parentless_writes_fail(
    req: WriteReqModel,
    cfg: config::ConfigModel,
    resolution: Resolution,
)
    requires
        !(cfg.policy is ReadOnly),
        cfg.policy.allows_path(req.path, resolution),
        req.if_mtime_matches is None,
        !pathname::has_parent_dir(resolution.style, vstd::utf8::encode_utf8(req.path)),
    ensures
        begin(req, cfg, resolution) is Done,
        begin(req, cfg, resolution)->result == Err::<i64, wire::DaemonErrorModel>(
            wire::DaemonErrorModel::Io("no parent directory"@),
        ),
{
}

/// The record of a write that was refused says why: for the mode, for the path, or
/// for an mtime that is another one or of a file that is not there.
pub proof fn law_refused_write_is_recorded(
    req: WriteReqModel,
    cfg: config::ConfigModel,
    resolution: Resolution,
    found: Option<Mtime>,
)
    ensures
        cfg.policy is ReadOnly ==> begin(req, cfg, resolution)->event == (audit::EventModel::Write {
            path: req.path,
            bytes: req.data.len() as u64,
            mtime_check: req.if_mtime_matches is Some,
            result: audit::OpResultModel::Denied { reason: "read-only mode"@ },
        }),
        !(cfg.policy is ReadOnly) && !cfg.policy.allows_path(req.path, resolution) ==> begin(
            req,
            cfg,
            resolution,
        )->event == (audit::EventModel::Write {
            path: req.path,
            bytes: req.data.len() as u64,
            mtime_check: req.if_mtime_matches is Some,
            result: audit::OpResultModel::Denied { reason: "path not in workspace"@ },
        }),
        req.if_mtime_matches matches Some(expected) ==> {
            let end = after_stat(req, resolution.style, found);
            &&& found is None ==> end->event->Write_result == (audit::OpResultModel::Denied {
                reason: "expected mtime "@ + text::signed_decimal(expected as int)
                    + " but file doesn't exist"@,
            })
            &&& found matches Some(mtime) ==> (read_file::mtime_ns(mtime) != expected
                ==> end->event->Write_result == (audit::OpResultModel::Denied {
                reason: "mtime mismatch: "@ + text::signed_decimal(expected as int) + " vs "@
                    + text::signed_decimal(read_file::mtime_ns(mtime) as i64 as int),
            }))
        },
{
    if found is Some {
        let mtime = found->Some_0;
        if mtime is Some {
            read_file::law_mtime_is_nanoseconds(mtime->Some_0.0, mtime->Some_0.1);
        }
    }
}

/// A write that names an mtime examines the file before it touches it.
pub proof fn law_named_mtime_is_examined(
    req: WriteReqModel,
    cfg: config::ConfigModel,
    resolution: Resolution,
)
    requires
        !(cfg.policy is ReadOnly),
        cfg.policy.allows_path(req.path, resolution),
        req.if_mtime_matches is Some,
    ensures
        begin(req, cfg, resolution) is Stat,
{
}

/// What a request and a step say is what they hold.
pub proof fn law_requests_say_what_they_hold(req: WriteFileReq, data: Vec<u8>)
    ensures
        req@.path == req.path@,
        req@.data == req.data@,
        req@.if_mtime_matches == req.if_mtime_matches,
        (WriteStep::Store { data })@ == (WriteStepModel::Store { data: data@ }),
        WriteStep::Stat@ is Stat,
{
}

} // verus!
