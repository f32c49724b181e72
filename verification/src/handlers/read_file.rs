//! Read a file from the customer's disk.
//!
//! Checks, in order: the path is allowed; the file exists and can be
//! examined; it is no larger than the request and the configuration allow.
//! Every request ends in one audit event.
use vstd::prelude::*;

use crate::audit;
use crate::audit::{Event, OpResult};
use crate::config;
use crate::config::Config;
use crate::handlers;
use crate::handlers::IoFailure;
use crate::resolve::Resolution;
use crate::text;
use crate::wire;
use crate::wire::{DaemonError, DaemonResult, ReadFileReq, ReadFileResp};

verus! {

/// A file's modification time since the epoch: seconds, and nanoseconds on top
/// of them; nothing where it is unknown or before the epoch.
pub type Mtime = Option<(u64, u32)>;

/// What examining a file gave.
pub struct FileStat {
    pub size: u64,
    pub mtime: Mtime,
}

/// What to do next for a read.
pub enum ReadStep {
    /// Examine the file; it may have so many bytes at most.
    Stat { cap: u64 },
    /// Read the file, which was modified at that time.
    Load { mtime_unix_ns: i64 },
    /// Record the event, and answer.
    Done { event: Event, result: DaemonResult<ReadFileResp> },
}

/// What a [`ReadStep`] says.
#[verifier::ext_equal]
pub enum ReadStepModel {
    Stat { cap: u64 },
    Load { mtime_unix_ns: i64 },
    Done {
        event: audit::EventModel,
        result: Result<wire::ReadFileRespModel, wire::DaemonErrorModel>,
    },
}

impl View for ReadStep {
    type V = ReadStepModel;

    open spec fn view(&self) -> ReadStepModel {
        match self {
            ReadStep::Stat { cap } => ReadStepModel::Stat { cap: *cap },
            ReadStep::Load { mtime_unix_ns } => ReadStepModel::Load {
                mtime_unix_ns: *mtime_unix_ns,
            },
            ReadStep::Done { event, result } => ReadStepModel::Done {
                event: event@,
                result: wire::reply(*result),
            },
        }
    }
}

/// The nanoseconds of a modification time in 64 bits, two's complement; 0
/// where there is none.
pub open spec fn mtime_ns(mtime: Mtime) -> int {
    match mtime {
        None => 0,
        Some((secs, nanos)) => {
            let low = (secs * 1_000_000_000 + nanos) % 0x1_0000_0000_0000_0000;
            if low < 0x8000_0000_0000_0000 {
                low
            } else {
                low - 0x1_0000_0000_0000_0000
            }
        },
    }
}

/// A read that ended with an error.
pub open spec fn read_refused(
    path: Seq<char>,
    result: audit::OpResultModel,
    error: wire::DaemonErrorModel,
) -> ReadStepModel {
    ReadStepModel::Done {
        event: audit::EventModel::Read { path, bytes: 0, result },
        result: Err(error),
    }
}

/// The first step of a read.
pub open spec fn begin(
    path: Seq<char>,
    max_bytes: u64,
    cfg: config::ConfigModel,
    resolution: Resolution,
) -> ReadStepModel {
    if cfg.policy.allows_path(path, resolution) {
        ReadStepModel::Stat { cap: handlers::least(max_bytes, cfg.max_read_bytes) }
    } else {
        read_refused(
            path,
            audit::OpResultModel::Denied { reason: "path not in workspace"@ },
            wire::DaemonErrorModel::PathNotAllowed(path),
        )
    }
}

/// The step after the file was examined.
pub open spec fn after_stat(
    path: Seq<char>,
    cap: u64,
    stat: Result<FileStat, IoFailure>,
) -> ReadStepModel {
    match stat {
        Err(e) => read_refused(
            path,
            audit::OpResultModel::Error { message: handlers::access_message(e) },
            handlers::access_error(e, path),
        ),
        Ok(stat) => if stat.size > cap {
            read_refused(
                path,
                audit::OpResultModel::Denied {
                    reason: "size "@ + text::decimal(stat.size as nat) + " > cap "@ + text::decimal(
                        cap as nat,
                    ),
                },
                wire::DaemonErrorModel::SizeLimitExceeded { requested: stat.size, max: cap },
            )
        } else {
            ReadStepModel::Load { mtime_unix_ns: mtime_ns(stat.mtime) as i64 }
        },
    }
}

/// The step after the file was read.
pub open spec fn after_load(
    path: Seq<char>,
    mtime_unix_ns: i64,
    data: Result<Vec<u8>, IoFailure>,
) -> ReadStepModel {
    match data {
        Err(e) => read_refused(
            path,
            audit::OpResultModel::Error { message: e.message@ },
            wire::DaemonErrorModel::Io(e.message@),
        ),
        Ok(data) => ReadStepModel::Done {
            event: audit::EventModel::Read {
                path,
                bytes: data@.len() as u64,
                result: audit::OpResultModel::Success,
            },
            result: Ok(
                wire::ReadFileRespModel {
                    data: data@,
                    mtime_unix_ns,
                    size_bytes: data@.len() as u64,
                },
            ),
        },
    }
}

/// The nanoseconds of a modification time; 0 where there is none.
pub fn mtime_unix_ns(mtime: Mtime) -> (res: i64)
    ensures
        res == mtime_ns(mtime),
{
    match mtime {
        None => 0,
        Some((secs, nanos)) => {
            let total: u128 = secs as u128 * 1_000_000_000 + nanos as u128;
            let low: u64 = (total % 0x1_0000_0000_0000_0000u128) as u64;
            if low < 0x8000_0000_0000_0000 {
                low as i64
            } else {
                -((0xffff_ffff_ffff_ffff - low) as i64) - 1
            }
        },
    }
}

/// A read event of nothing read.
fn refusal(path: &str, result: OpResult, error: DaemonError) -> (res: ReadStep)
    ensures
        res@ == read_refused(path@, result@, error@),
{
    ReadStep::Done {
        event: Event::Read { path: path.to_string(), bytes: 0, result },
        result: Err(error),
    }
}

/// Starts a read: refuses it, or asks for the file to be examined.
pub fn handle(req: &ReadFileReq, cfg: &Config, resolution: &Resolution) -> (res: ReadStep)
    ensures
        res@ == begin(req.path@, req.max_bytes, cfg@, *resolution),
{
    if !cfg.policy.path_allowed(req.path.as_str(), resolution) {
        return refusal(
            req.path.as_str(),
            OpResult::Denied { reason: "path not in workspace".to_string() },
            DaemonError::PathNotAllowed(req.path.clone()),
        );
    }
    let cap: u64 = if req.max_bytes < cfg.max_read_bytes {
        req.max_bytes
    } else {
        cfg.max_read_bytes
    };
    ReadStep::Stat { cap }
}

/// Goes on after the file was examined: answers with an error, or asks for
/// the file to be read.
pub fn examined(req: &ReadFileReq, cap: u64, stat: Result<FileStat, IoFailure>) -> (res: ReadStep)
    ensures
        res@ == after_stat(req.path@, cap, stat),
{
    match stat {
        Err(e) => {
            let (message, error) = handlers::access_failure(e, req.path.as_str());
            refusal(req.path.as_str(), OpResult::Error { message }, error)
        },
        Ok(stat) => {
            if stat.size > cap {
                let reason = text::text4(
                    "size ",
                    text::decimal_text(stat.size).as_str(),
                    " > cap ",
                    text::decimal_text(cap).as_str(),
                );
                refusal(
                    req.path.as_str(),
                    OpResult::Denied { reason },
                    DaemonError::SizeLimitExceeded { requested: stat.size, max: cap },
                )
            } else {
                ReadStep::Load { mtime_unix_ns: mtime_unix_ns(stat.mtime) }
            }
        },
    }
}

/// Ends a read with the file's contents, or with the error that reading gave.
pub fn loaded(
    req: &ReadFileReq,
    mtime_unix_ns: i64,
    data: Result<Vec<u8>, IoFailure>,
) -> (res: ReadStep)
    ensures
        res@ == after_load(req.path@, mtime_unix_ns, data),
{
    match data {
        Err(e) => {
            let message = e.message.clone();
            refusal(
                req.path.as_str(),
                OpResult::Error { message },
                DaemonError::Io(e.message),
            )
        },
        Ok(data) => {
            let bytes: u64 = data.len() as u64;
            ReadStep::Done {
                event: Event::Read { path: req.path.clone(), bytes, result: OpResult::Success },
                result: Ok(ReadFileResp { data, mtime_unix_ns, size_bytes: bytes }),
            }
        },
    }
}

// ── Laws ────────────────────────────────────────────────────────────

/// How a read ends, given what examining and reading the file give.
pub open spec fn ending(
    path: Seq<char>,
    max_bytes: u64,
    cfg: config::ConfigModel,
    resolution: Resolution,
    stat: Result<FileStat, IoFailure>,
    data: Result<Vec<u8>, IoFailure>,
) -> ReadStepModel {
    match begin(path, max_bytes, cfg, resolution) {
        ReadStepModel::Stat { cap } => match after_stat(path, cap, stat) {
            ReadStepModel::Load { mtime_unix_ns } => after_load(path, mtime_unix_ns, data),
            step => step,
        },
        step => step,
    }
}

/// Every read ends in one answer and one event, which names the path asked
/// for and says success exactly when the answer does.
pub proof fn law_read_is_audited(
    path: Seq<char>,
    max_bytes: u64,
    cfg: config::ConfigModel,
    resolution: Resolution,
    stat: Result<FileStat, IoFailure>,
    data: Result<Vec<u8>, IoFailure>,
)
    ensures
        ({
            let end = ending(path, max_bytes, cfg, resolution, stat, data);
            &&& end is Done
            &&& end->event is Read
            &&& end->event->Read_path == path
            &&& (end->event->Read_result is Success <==> end->result is Ok)
        }),
{
}

/// A path that policy refuses is answered so, with nothing of the disk in the
/// answer: neither examining nor reading the file can change it.
pub proof fn law_read_outside_is_refused(
    path: Seq<char>,
    max_bytes: u64,
    cfg: config::ConfigModel,
    resolution: Resolution,
    stat: Result<FileStat, IoFailure>,
    data: Result<Vec<u8>, IoFailure>,
)
    requires
        !cfg.policy.allows_path(path, resolution),
    ensures
        ending(path, max_bytes, cfg, resolution, stat, data) == read_refused(
            path,
            audit::OpResultModel::Denied { reason: "path not in workspace"@ },
            wire::DaemonErrorModel::PathNotAllowed(path),
        ),
{
}

/// A read gives out no more bytes than both the request and the configuration
/// allow, unless the file grew after it was examined; and it gives out the
/// bytes that reading the file gave.
pub proof fn law_read_is_capped(
    path: Seq<char>,
    max_bytes: u64,
    cfg: config::ConfigModel,
    resolution: Resolution,
    stat: FileStat,
    data: Vec<u8>,
)
    requires
        data@.len() <= stat.size,
    ensures
        ({
            let end = ending(path, max_bytes, cfg, resolution, Ok(stat), Ok(data));
            end->result is Ok ==> {
                let resp = end->result->Ok_0;
                &&& resp.data == data@
                &&& resp.data.len() <= max_bytes
                &&& resp.data.len() <= cfg.max_read_bytes
                &&& resp.size_bytes == resp.data.len()
            }
        }),
{
}

/// An allowed file that is small enough is given out: where the file is no larger
/// than the request and the configuration's read limit allow, and it can be
/// examined and read, the read ends with the bytes that were read, their number,
/// and the time that the file had, and is recorded so. No other limit of the
/// configuration cuts it.
pub proof fn law_allowed_read_succeeds(
    path: Seq<char>,
    max_bytes: u64,
    cfg: config::ConfigModel,
    resolution: Resolution,
    stat: FileStat,
    data: Vec<u8>,
)
    requires
        cfg.policy.allows_path(path, resolution),
        stat.size <= max_bytes,
        stat.size <= cfg.max_read_bytes,
    ensures
        ({
            let end = ending(path, max_bytes, cfg, resolution, Ok(stat), Ok(data));
            &&& end is Done
            &&& end->result is Ok
            &&& end->result->Ok_0.data == data@
            &&& end->result->Ok_0.size_bytes == data@.len() as u64
            &&& end->result->Ok_0.mtime_unix_ns == mtime_ns(stat.mtime) as i64
            &&& end->event == (audit::EventModel::Read {
                path,
                bytes: data@.len() as u64,
                result: audit::OpResultModel::Success,
            })
        }),
{
}

/// A file that is too large is refused with its size and with the smaller of the
/// two limits, without being read, and the refusal is recorded.
pub proof fn law_large_read_is_refused(
    path: Seq<char>,
    max_bytes: u64,
    cfg: config::ConfigModel,
    resolution: Resolution,
    stat: FileStat,
    data: Result<Vec<u8>, IoFailure>,
)
    requires
        cfg.policy.allows_path(path, resolution),
        stat.size > max_bytes || stat.size > cfg.max_read_bytes,
    ensures
        ({
            let end = ending(path, max_bytes, cfg, resolution, Ok(stat), data);
            &&& end is Done
            &&& end->result is Err
            &&& end->result->Err_0 matches wire::DaemonErrorModel::SizeLimitExceeded {
                requested,
                max,
            }
            &&& requested == stat.size
            &&& max <= max_bytes
            &&& max <= cfg.max_read_bytes
            &&& max == max_bytes || max == cfg.max_read_bytes
            &&& end->event->Read_bytes == 0
            &&& end->event->Read_result is Denied
        }),
{
}

/// A file that cannot be examined is answered with what went wrong: not found, no
/// permission, or the system's own message; and nothing is read.
pub proof fn law_missing_read_says_why(
    path: Seq<char>,
    max_bytes: u64,
    cfg: config::ConfigModel,
    resolution: Resolution,
    failure: IoFailure,
    data: Result<Vec<u8>, IoFailure>,
)
    requires
        cfg.policy.allows_path(path, resolution),
    ensures
        ({
            let end = ending(path, max_bytes, cfg, resolution, Err(failure), data);
            &&& end is Done
            &&& end->result is Err
            &&& failure.kind == handlers::IoKind::NotFound ==> end->result->Err_0
                == wire::DaemonErrorModel::NotFound(path) && end->event->Read_result
                == (audit::OpResultModel::Error { message: "not found"@ })
            &&& failure.kind == handlers::IoKind::PermissionDenied ==> end->result->Err_0
                == wire::DaemonErrorModel::PermissionDenied(path) && end->event->Read_result
                == (audit::OpResultModel::Error { message: "permission denied"@ })
            &&& failure.kind == handlers::IoKind::Other ==> end->result->Err_0
                == wire::DaemonErrorModel::Io(failure.message@) && end->event->Read_result
                == (audit::OpResultModel::Error { message: failure.message@ })
            &&& end->event->Read_bytes == 0
        }),
{
}

/// A file that is small enough but cannot be read is answered with the system's
/// own message.
pub proof fn law_failed_read_says_why(
    path: Seq<char>,
    max_bytes: u64,
    cfg: config::ConfigModel,
    resolution: Resolution,
    stat: FileStat,
    failure: IoFailure,
)
    requires
        cfg.policy.allows_path(path, resolution),
        stat.size <= max_bytes,
        stat.size <= cfg.max_read_bytes,
    ensures
        ({
            let end = ending(path, max_bytes, cfg, resolution, Ok(stat), Err(failure));
            &&& end is Done
            &&& end->result is Err
            &&& end->result->Err_0 == wire::DaemonErrorModel::Io(failure.message@)
            &&& end->event == (audit::EventModel::Read {
                path,
                bytes: 0,
                result: audit::OpResultModel::Error { message: failure.message@ },
            })
        }),
{
}

/// A modification time is given in nanoseconds since the epoch, as far as 64 bits
/// hold them; one that is unknown is given as 0. So two times are told apart
/// wherever they differ.
pub proof fn law_mtime_is_nanoseconds(secs: u64, nanos: u32)
    ensures
        mtime_ns(None) == 0,
        secs * 1_000_000_000 + nanos < 0x8000_0000_0000_0000 ==> mtime_ns(Some((secs, nanos)))
            == secs * 1_000_000_000 + nanos,
        -0x8000_0000_0000_0000 <= mtime_ns(Some((secs, nanos))) < 0x8000_0000_0000_0000,
        (mtime_ns(Some((secs, nanos))) - (secs * 1_000_000_000 + nanos)) % 0x1_0000_0000_0000_0000
            == 0,
{
    let total = secs * 1_000_000_000 + nanos;
    assert(total >= 0);
    let low = total % 0x1_0000_0000_0000_0000;
    let q = total / 0x1_0000_0000_0000_0000;
    assert(total == q * 0x1_0000_0000_0000_0000 + low);
    assert((low - total) % 0x1_0000_0000_0000_0000 == 0);
    assert((low - 0x1_0000_0000_0000_0000 - total) % 0x1_0000_0000_0000_0000 == 0);
}

/// A read outside the workspace is answered with the path that is not allowed,
/// and recorded as denied with nothing read.
pub proof fn law_outside_read_says_so(
    path: Seq<char>,
    max_bytes: u64,
    cfg: config::ConfigModel,
    resolution: Resolution,
)
    requires
        !cfg.policy.allows_path(path, resolution),
    ensures
        begin(path, max_bytes, cfg, resolution) == (ReadStepModel::Done {
            event: audit::EventModel::Read {
                path,
                bytes: 0,
                result: audit::OpResultModel::Denied { reason: "path not in workspace"@ },
            },
            result: Err(wire::DaemonErrorModel::PathNotAllowed(path)),
        }),
{
}

/// The record of a read that was too large says its size and the limit.
pub proof fn law_large_read_is_recorded(path: Seq<char>, cap: u64, stat: FileStat)
    requires
        stat.size > cap,
    ensures
        after_stat(path, cap, Ok(stat))->event == (audit::EventModel::Read {
            path,
            bytes: 0,
            result: audit::OpResultModel::Denied {
                reason: "size "@ + text::decimal(stat.size as nat) + " > cap "@ + text::decimal(
                    cap as nat,
                ),
            },
        }),
{
}

/// What a step says is what it holds.
pub proof fn law_steps_say_what_they_hold(cap: u64, ns: i64, event: Event, resp: ReadFileResp, e: DaemonError)
    ensures
        (ReadStep::Stat { cap })@ == (ReadStepModel::Stat { cap }),
        (ReadStep::Load { mtime_unix_ns: ns })@ == (ReadStepModel::Load { mtime_unix_ns: ns }),
        (ReadStep::Done { event, result: Ok(resp) })@ == (ReadStepModel::Done {
            event: event@,
            result: Ok(resp@),
        }),
        (ReadStep::Done { event, result: Err(e) })@ == (ReadStepModel::Done {
            event: event@,
            result: Err(e@),
        }),
{
}

} // verus!
