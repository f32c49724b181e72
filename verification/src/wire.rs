//! The wire protocol between the cloud and the daemon.
//!
//! One stream carries one RPC: the cloud sends a [`Request`], the daemon
//! answers with a [`Response`]. Each message is framed by its length, a 32-bit
//! little-endian number; what a frame holds is the message in bincode.
use vstd::prelude::*;

use crate::text;

verus! {

// ── Filesystem ──────────────────────────────────────────────────────

/// Read a file from the customer's disk.
#[derive(Debug, Clone)]
pub struct ReadFileReq {
    pub path: String,
    /// The daemon refuses a file that is larger than this.
    pub max_bytes: u64,
}

#[derive(Debug, Clone)]
pub struct ReadFileResp {
    pub data: Vec<u8>,
    pub mtime_unix_ns: i64,
    pub size_bytes: u64,
}

/// Write or overwrite a file on the customer's disk.
#[derive(Debug, Clone)]
pub struct WriteFileReq {
    pub path: String,
    pub data: Vec<u8>,
    /// If set, the daemon writes only if the file's mtime is still this one.
    pub if_mtime_matches: Option<i64>,
}

#[derive(Debug, Clone)]
pub struct WriteFileResp {
    pub mtime_unix_ns: i64,
}

/// List a directory on the customer's disk.
#[derive(Debug, Clone)]
pub struct ListDirReq {
    pub path: String,
}

#[derive(Debug, Clone)]
pub struct ListDirResp {
    pub entries: Vec<DirEntry>,
}

#[derive(Debug, Clone)]
pub struct DirEntry {
    pub name: String,
    pub is_dir: bool,
    pub size_bytes: u64,
}

// ── Exec ────────────────────────────────────────────────────────────

/// Run a shell command on the customer's machine.
#[derive(Debug, Clone)]
pub struct ExecReq {
    pub command: String,
    pub timeout_ms: u32,
    pub max_output_bytes: u64,
}

#[derive(Debug, Clone)]
pub struct ExecResp {
    pub stdout: Vec<u8>,
    pub stderr: Vec<u8>,
    pub exit_code: Option<i32>,
    pub duration_ms: u32,
    pub timed_out: bool,
    /// Whether stdout or stderr was cut to fit the output limit.
    pub output_truncated: bool,
}

// ── Errors ──────────────────────────────────────────────────────────

#[derive(Debug, Clone)]
pub enum DaemonError {
    /// Path not under the daemon's allowlist.
    PathNotAllowed(String),
    /// Path doesn't exist on the customer's disk.
    NotFound(String),
    /// Path exists but the daemon can't access it.
    PermissionDenied(String),
    /// Generic underlying IO failure, with its message.
    Io(String),
    /// The request asked for more bytes than the daemon allows.
    SizeLimitExceeded { requested: u64, max: u64 },
    /// The operation exceeded its deadline.
    Timeout,
    /// The mtime check of a write failed.
    MtimeMismatch { expected: i64, actual: i64 },
    /// Anything else.
    Other(String),
}

pub type DaemonResult<T> = Result<T, DaemonError>;

// ── Envelopes ───────────────────────────────────────────────────────

#[derive(Debug, Clone)]
pub enum Request {
    ReadFile(ReadFileReq),
    WriteFile(WriteFileReq),
    ListDir(ListDirReq),
    Exec(ExecReq),
    Ping,
}

#[derive(Debug)]
pub enum Response {
    ReadFile(DaemonResult<ReadFileResp>),
    WriteFile(DaemonResult<WriteFileResp>),
    ListDir(DaemonResult<ListDirResp>),
    Exec(DaemonResult<ExecResp>),
    Pong,
}

// ── What the messages say ───────────────────────────────────────────

/// What a [`ReadFileResp`] says.
#[verifier::ext_equal]
pub struct ReadFileRespModel {
    pub data: Seq<u8>,
    pub mtime_unix_ns: i64,
    pub size_bytes: u64,
}

impl View for ReadFileResp {
    type V = ReadFileRespModel;

    open spec fn view(&self) -> ReadFileRespModel {
        ReadFileRespModel {
            data: self.data@,
            mtime_unix_ns: self.mtime_unix_ns,
            size_bytes: self.size_bytes,
        }
    }
}

impl View for WriteFileResp {
    type V = i64;

    open spec fn view(&self) -> i64 {
        self.mtime_unix_ns
    }
}

/// What a [`DirEntry`] says.
#[verifier::ext_equal]
pub struct DirEntryModel {
    pub name: Seq<char>,
    pub is_dir: bool,
    pub size_bytes: u64,
}

impl View for DirEntry {
    type V = DirEntryModel;

    open spec fn view(&self) -> DirEntryModel {
        DirEntryModel { name: self.name@, is_dir: self.is_dir, size_bytes: self.size_bytes }
    }
}

impl View for ListDirResp {
    type V = Seq<DirEntryModel>;

    open spec fn view(&self) -> Seq<DirEntryModel> {
        self.entries@.map_values(|e: DirEntry| e@)
    }
}

/// What an [`ExecResp`] says.
#[verifier::ext_equal]
pub struct ExecRespModel {
    pub stdout: Seq<u8>,
    pub stderr: Seq<u8>,
    pub exit_code: Option<i32>,
    pub duration_ms: u32,
    pub timed_out: bool,
    pub output_truncated: bool,
}

impl View for ExecResp {
    type V = ExecRespModel;

    open spec fn view(&self) -> ExecRespModel {
        ExecRespModel {
            stdout: self.stdout@,
            stderr: self.stderr@,
            exit_code: self.exit_code,
            duration_ms: self.duration_ms,
            timed_out: self.timed_out,
            output_truncated: self.output_truncated,
        }
    }
}

/// What a [`DaemonError`] says.
#[verifier::ext_equal]
pub enum DaemonErrorModel {
    PathNotAllowed(Seq<char>),
    NotFound(Seq<char>),
    PermissionDenied(Seq<char>),
    Io(Seq<char>),
    SizeLimitExceeded { requested: u64, max: u64 },
    Timeout,
    MtimeMismatch { expected: i64, actual: i64 },
    Other(Seq<char>),
}

impl View for DaemonError {
    type V = DaemonErrorModel;

    open spec fn view(&self) -> DaemonErrorModel {
        match self {
            DaemonError::PathNotAllowed(p) => DaemonErrorModel::PathNotAllowed(p@),
            DaemonError::NotFound(p) => DaemonErrorModel::NotFound(p@),
            DaemonError::PermissionDenied(p) => DaemonErrorModel::PermissionDenied(p@),
            DaemonError::Io(m) => DaemonErrorModel::Io(m@),
            DaemonError::SizeLimitExceeded { requested, max } => {
                DaemonErrorModel::SizeLimitExceeded { requested: *requested, max: *max }
            },
            DaemonError::Timeout => DaemonErrorModel::Timeout,
            DaemonError::MtimeMismatch { expected, actual } => {
                DaemonErrorModel::MtimeMismatch { expected: *expected, actual: *actual }
            },
            DaemonError::Other(m) => DaemonErrorModel::Other(m@),
        }
    }
}

/// What a reply says.
pub open spec fn reply<T: View>(res: DaemonResult<T>) -> Result<T::V, DaemonErrorModel> {
    match res {
        Ok(v) => Ok(v@),
        Err(e) => Err(e@),
    }
}

/// What a [`Response`] says.
#[verifier::ext_equal]
pub enum ResponseModel {
    ReadFile(Result<ReadFileRespModel, DaemonErrorModel>),
    WriteFile(Result<i64, DaemonErrorModel>),
    ListDir(Result<Seq<DirEntryModel>, DaemonErrorModel>),
    Exec(Result<ExecRespModel, DaemonErrorModel>),
    Pong,
}

impl View for Response {
    type V = ResponseModel;

    open spec fn view(&self) -> ResponseModel {
        match self {
            Response::ReadFile(r) => ResponseModel::ReadFile(reply(*r)),
            Response::WriteFile(r) => ResponseModel::WriteFile(reply(*r)),
            Response::ListDir(r) => ResponseModel::ListDir(reply(*r)),
            Response::Exec(r) => ResponseModel::Exec(reply(*r)),
            Response::Pong => ResponseModel::Pong,
        }
    }
}

// ── Framing ─────────────────────────────────────────────────────────

/// The low 32 bits of `n`, as four bytes, least significant first.
pub open spec fn le32(n: nat) -> Seq<u8> {
    seq![
        (n % 256) as u8,
        (n / 256 % 256) as u8,
        (n / 0x1_0000 % 256) as u8,
        (n / 0x100_0000 % 256) as u8,
    ]
}

/// The number that the first four bytes of `b` write, least significant first.
pub open spec fn le32_value(b: Seq<u8>) -> nat {
    (b[0] + 0x100 * b[1] + 0x1_0000 * b[2] + 0x100_0000 * b[3]) as nat
}

/// `body` behind its length. Only the low 32 bits of the length are written.
pub open spec fn frame(body: Seq<u8>) -> Seq<u8> {
    le32(body.len()) + body
}

/// What a buffer holds at its start.
#[verifier::ext_equal]
pub enum FrameModel {
    /// No whole frame yet; so many more bytes are needed for the length, or
    /// for the body that the length announces.
    NeedMore(nat),
    /// A whole frame, with its body and the bytes that it takes.
    Whole { body: Seq<u8>, consumed: nat },
}

/// What `buf` holds at its start.
pub open spec fn first_frame(buf: Seq<u8>) -> FrameModel {
    if buf.len() < 4 {
        FrameModel::NeedMore((4 - buf.len()) as nat)
    } else {
        let end = 4 + le32_value(buf);
        if buf.len() < end {
            FrameModel::NeedMore((end - buf.len()) as nat)
        } else {
            FrameModel::Whole { body: buf.subrange(4, end as int), consumed: end }
        }
    }
}

/// Why a buffer was not decoded.
#[derive(Debug)]
pub enum DecodeError {
    /// So many more bytes are required.
    NeedMore(usize),
    /// The frame is whole, but its body is no message.
    Bincode(String),
}

impl DecodeError {
    /// What [`DecodeError::message`] says.
    pub open spec fn says(self) -> Seq<char> {
        match self {
            DecodeError::NeedMore(n) => "need "@ + text::decimal(n as nat) + " more bytes"@,
            DecodeError::Bincode(e) => "decode error: "@ + e@,
        }
    }

    /// The error in words.
    pub fn message(&self) -> (res: String)
        ensures
            res@ == self.says(),
    {
        match self {
            DecodeError::NeedMore(n) => {
                text::text3("need ", text::decimal_text(*n as u64).as_str(), " more bytes")
            },
            DecodeError::Bincode(e) => text::text2("decode error: ", e.as_str()),
        }
    }
}

/// A copy of the bytes of `buf` from `from` up to `to`.
pub fn copy_range(buf: &[u8], from: usize, to: usize) -> (res: Vec<u8>)
    requires
        from <= to <= buf@.len(),
    ensures
        res@ == buf@.subrange(from as int, to as int),
{
    let part = vstd::slice::slice_subrange(buf, from, to);
    let mut out: Vec<u8> = Vec::new();
    out.extend_from_slice(part);
    assert(out@ =~= part@);
    out
}

/// Frames the bincode of a message: its length, then the message.
pub fn encode(body: &[u8]) -> (res: Vec<u8>)
    ensures
        res@ == frame(body@),
{
    let len: u64 = body.len() as u64;
    let mut out: Vec<u8> = Vec::new();
    out.push((len % 256) as u8);
    out.push((len / 256 % 256) as u8);
    out.push((len / 0x1_0000 % 256) as u8);
    out.push((len / 0x100_0000 % 256) as u8);
    assert(out@ =~= le32(body@.len()));
    out.extend_from_slice(body);
    assert(out@ =~= frame(body@));
    out
}

/// The body of the frame at the start of `buf`, and how many bytes the frame
/// takes.
pub fn decode(buf: &[u8]) -> (res: Result<(Vec<u8>, usize), DecodeError>)
    ensures
        match (res, first_frame(buf@)) {
            (Ok((body, n)), FrameModel::Whole { body: b, consumed }) => body@ == b && n == consumed,
            (Err(DecodeError::NeedMore(n)), FrameModel::NeedMore(m)) => n == m,
            _ => false,
        },
{
    if buf.len() < 4 {
        return Err(DecodeError::NeedMore(4 - buf.len()));
    }
    let len: u64 = buf[0] as u64 + 0x100 * (buf[1] as u64) + 0x1_0000 * (buf[2] as u64)
        + 0x100_0000 * (buf[3] as u64);
    let end: u64 = 4 + len;
    let have: u64 = buf.len() as u64;
    if have < end {
        return Err(DecodeError::NeedMore((end - have) as usize));
    }
    let stop: usize = end as usize;
    Ok((copy_range(buf, 4, stop), stop))
}

/// What decoding a frame comes to, once its body was parsed: the message and
/// the bytes that its frame took, or why the body is no message.
pub fn decoded<T>(parsed: Result<T, String>, consumed: usize) -> (res: Result<
    (T, usize),
    DecodeError,
>)
    ensures
        match parsed {
            Ok(msg) => res == Ok::<(T, usize), DecodeError>((msg, consumed)),
            Err(e) => res == Err::<(T, usize), DecodeError>(DecodeError::Bincode(e)),
        },
{
    match parsed {
        Ok(msg) => Ok((msg, consumed)),
        Err(e) => Err(DecodeError::Bincode(e)),
    }
}

proof fn lemma_le32_round_trip(n: nat)
    requires
        n < 0x1_0000_0000,
    ensures
        le32_value(le32(n)) == n,
{
    let a = n % 256;
    let b = n / 256 % 256;
    let c = n / 0x1_0000 % 256;
    let d = n / 0x100_0000 % 256;
    assert(n / 0x1_0000 == n / 256 / 256) by (nonlinear_arith);
    assert(n / 0x100_0000 == n / 0x1_0000 / 256) by (nonlinear_arith);
}

/// Reading back what was written: a framed body decodes to that body, with
/// exactly the frame consumed, whatever follows it.
pub proof fn law_decode_encode(body: Seq<u8>, rest: Seq<u8>)
    requires
        body.len() < 0x1_0000_0000,
    ensures
        first_frame(frame(body) + rest) == (FrameModel::Whole {
            body,
            consumed: frame(body).len(),
        }),
{
    let buf = frame(body) + rest;
    lemma_le32_round_trip(body.len());
    assert(le32_value(buf) == le32_value(le32(body.len())));
    assert(buf.subrange(4, 4 + body.len() as int) =~= body);
}

/// A frame that lacks some of its last bytes asks for more: for the rest of its
/// length first, and once that is there for exactly the bytes that it lacks.
pub proof fn law_cut_frame_needs_more(body: Seq<u8>, have: int)
    requires
        body.len() < 0x1_0000_0000,
        0 <= have < frame(body).len(),
    ensures
        have < 4 ==> first_frame(frame(body).take(have)) == FrameModel::NeedMore((4 - have) as nat),
        have >= 4 ==> first_frame(frame(body).take(have)) == FrameModel::NeedMore(
            (frame(body).len() - have) as nat,
        ),
{
    lemma_le32_round_trip(body.len());
    if have >= 4 {
        assert(le32_value(frame(body).take(have)) == le32_value(le32(body.len())));
    }
}

/// The number asked for is really required: with fewer more bytes, whatever
/// they are, there is still no whole frame; and once the length is there, that
/// many bytes are enough.
pub proof fn law_need_more_is_exact(buf: Seq<u8>, more: Seq<u8>)
    requires
        first_frame(buf) is NeedMore,
    ensures
        more.len() < first_frame(buf)->NeedMore_0 ==> first_frame(buf + more) is NeedMore,
        buf.len() >= 4 && more.len() >= first_frame(buf)->NeedMore_0 ==> first_frame(
            buf + more,
        ) is Whole,
{
    if buf.len() >= 4 {
        assert(le32_value(buf + more) == le32_value(buf));
    }
}

/// A whole frame stays the first one, whatever follows.
pub proof fn law_whole_frame_is_stable(buf: Seq<u8>, more: Seq<u8>)
    requires
        first_frame(buf) is Whole,
    ensures
        first_frame(buf + more) == first_frame(buf),
{
    assert(le32_value(buf + more) == le32_value(buf));
    let end = 4 + le32_value(buf);
    assert((buf + more).subrange(4, end as int) =~= buf.subrange(4, end as int));
}

/// A frame is its length in four bytes, least significant first, and then the
/// message as it is.
pub proof fn law_frame_is_length_and_message(body: Seq<u8>)
    requires
        body.len() < 0x1_0000_0000,
    ensures
        frame(body).len() == 4 + body.len(),
        frame(body)[0] + 0x100 * frame(body)[1] + 0x1_0000 * frame(body)[2] + 0x100_0000 * frame(
            body,
        )[3] == body.len(),
        frame(body).skip(4) == body,
{
    lemma_le32_round_trip(body.len());
    assert(frame(body).skip(4) =~= body);
}

/// What a decoding error says: how many bytes are missing, or why the message is
/// none.
pub proof fn law_decode_errors_say_why(n: usize, e: String)
    ensures
        DecodeError::NeedMore(n).says() == "need "@ + text::decimal(n as nat) + " more bytes"@,
        DecodeError::Bincode(e).says() == "decode error: "@ + e@,
{
}

/// What a message says is what it holds.
pub proof fn law_messages_say_what_they_hold(
    read: ReadFileResp,
    write: WriteFileResp,
    list: ListDirResp,
    run: ExecResp,
    i: int,
)
    ensures
        read@.data == read.data@,
        read@.mtime_unix_ns == read.mtime_unix_ns,
        read@.size_bytes == read.size_bytes,
        write@ == write.mtime_unix_ns,
        list@.len() == list.entries@.len(),
        0 <= i < list.entries@.len() ==> {
            &&& list@[i].name == list.entries@[i].name@
            &&& list@[i].is_dir == list.entries@[i].is_dir
            &&& list@[i].size_bytes == list.entries@[i].size_bytes
        },
        run@.stdout == run.stdout@,
        run@.stderr == run.stderr@,
        run@.exit_code == run.exit_code,
        run@.duration_ms == run.duration_ms,
        run@.timed_out == run.timed_out,
        run@.output_truncated == run.output_truncated,
{
}

/// What an error says is what it holds.
pub proof fn law_errors_say_what_they_hold(text: String, a: u64, b: u64, x: i64, y: i64)
    ensures
        DaemonError::PathNotAllowed(text)@ == DaemonErrorModel::PathNotAllowed(text@),
        DaemonError::NotFound(text)@ == DaemonErrorModel::NotFound(text@),
        DaemonError::PermissionDenied(text)@ == DaemonErrorModel::PermissionDenied(text@),
        DaemonError::Io(text)@ == DaemonErrorModel::Io(text@),
        DaemonError::Other(text)@ == DaemonErrorModel::Other(text@),
        DaemonError::Timeout@ is Timeout,
        (DaemonError::SizeLimitExceeded { requested: a, max: b })@ == (
        DaemonErrorModel::SizeLimitExceeded { requested: a, max: b }),
        (DaemonError::MtimeMismatch { expected: x, actual: y })@ == (
        DaemonErrorModel::MtimeMismatch { expected: x, actual: y }),
{
}

/// What a response says is the answer that it holds, of its own kind.
pub proof fn law_responses_say_what_they_hold(
    read: ReadFileResp,
    write: WriteFileResp,
    list: ListDirResp,
    run: ExecResp,
    e: DaemonError,
)
    ensures
        Response::ReadFile(Ok(read))@ == ResponseModel::ReadFile(Ok(read@)),
        Response::ReadFile(Err(e))@ == ResponseModel::ReadFile(Err(e@)),
        Response::WriteFile(Ok(write))@ == ResponseModel::WriteFile(Ok(write@)),
        Response::WriteFile(Err(e))@ == ResponseModel::WriteFile(Err(e@)),
        Response::ListDir(Ok(list))@ == ResponseModel::ListDir(Ok(list@)),
        Response::ListDir(Err(e))@ == ResponseModel::ListDir(Err(e@)),
        Response::Exec(Ok(run))@ == ResponseModel::Exec(Ok(run@)),
        Response::Exec(Err(e))@ == ResponseModel::Exec(Err(e@)),
        Response::Pong@ is Pong,
{
}

} // verus!
