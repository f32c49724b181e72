//! The tunnel from the daemon out to the cloud.
//!
//! The daemon dials the cloud, shows its own certificate (issued during
//! pairing) and accepts the cloud's only if it is the pinned one. For each RPC
//! the cloud opens a stream, sends one framed request and reads one framed
//! response.
//!
//! After a failure the daemon dials again, with an exponential backoff of at
//! most a minute, which starts over once a connection stands.
//!
//! Whoever drives the tunnel dials, sleeps, reads and writes; what is decided
//! is decided here.
use vstd::prelude::*;

use crate::audit;
use crate::audit::Event;
use crate::deps;
use crate::deps::KeyFormat;
use crate::failure;
use crate::failure::Failure;
use crate::hex;
use crate::text;
use crate::wire;

verus! {

// ── Before the first dial ───────────────────────────────────────────

/// The files that pairing leaves, and which of them are there.
#[derive(Debug)]
pub struct PairingFiles {
    pub cert_path: String,
    pub key_path: String,
    pub pin_path: String,
    pub cert: bool,
    pub key: bool,
    pub pin: bool,
}

/// Why a daemon with these files must not dial, if it must not. `dev` is for
/// tests against a mock cloud, which has no pin.
pub open spec fn unpaired(files: PairingFiles, dev: bool) -> Option<Seq<char>> {
    if !files.cert || !files.key {
        Some(
            "daemon not paired: missing cert at "@ + files.cert_path@ + " or key at "@
                + files.key_path@
                + ". Run `membrane-daemon pair` to generate a CSR, send it to your operator, then run `membrane-daemon pair --token <T>` to install the returned token."@,
        )
    } else if !files.pin && !dev {
        Some(
            "daemon not paired: cloud pin missing at "@ + files.pin_path@
                + ". A valid pairing token installs this. If you have a token, run `membrane-daemon pair --token <T>`."@,
        )
    } else {
        None
    }
}

/// Refuses to run a daemon that is not paired.
pub fn check_paired(files: &PairingFiles, dev: bool) -> (res: Result<(), Failure>)
    ensures
        match (res, unpaired(*files, dev)) {
            (Ok(_), None) => true,
            (Err(e), Some(why)) => e@ == failure::plain(why),
            _ => false,
        },
{
    if !files.cert || !files.key {
        return Err(
            Failure::new(
                text::text5(
                    "daemon not paired: missing cert at ",
                    files.cert_path.as_str(),
                    " or key at ",
                    files.key_path.as_str(),
                    ". Run `membrane-daemon pair` to generate a CSR, send it to your operator, then run `membrane-daemon pair --token <T>` to install the returned token.",
                ),
            ),
        );
    }
    if !files.pin && !dev {
        return Err(
            Failure::new(
                text::text3(
                    "daemon not paired: cloud pin missing at ",
                    files.pin_path.as_str(),
                    ". A valid pairing token installs this. If you have a token, run `membrane-daemon pair --token <T>`.",
                ),
            ),
        );
    }
    Ok(())
}

// ── Dialing ─────────────────────────────────────────────────────────

/// No wait before a dial is longer, in seconds.
pub const MAX_BACKOFF_SECS: u64 = 60;

/// The port of an endpoint that names none.
pub const DEFAULT_PORT: u16 = 443;

/// `endpoint` without the scheme in front.
pub open spec fn without_scheme(endpoint: Seq<char>) -> Seq<char> {
    if text::begins_with(endpoint, "https://"@) {
        endpoint.skip("https://"@.len() as int)
    } else if text::begins_with(endpoint, "quic://"@) {
        endpoint.skip("quic://"@.len() as int)
    } else {
        endpoint
    }
}

/// Where `c` occurs last in `s`.
pub open spec fn last_index(s: Seq<char>, c: char) -> Option<int>
    decreases s.len(),
{
    if s.len() == 0 {
        None
    } else if s.last() == c {
        Some(s.len() - 1)
    } else {
        last_index(s.drop_last(), c)
    }
}

/// The host and port that an endpoint names, or why its port is no port. The
/// port follows the last colon.
pub open spec fn endpoint_of(endpoint: Seq<char>) -> Result<(Seq<char>, u16), Seq<char>> {
    let rest = without_scheme(endpoint);
    match last_index(rest, ':') {
        None => Ok((rest, DEFAULT_PORT)),
        Some(i) => match text::number_u16(rest.skip(i + 1)) {
            Ok(port) => Ok((rest.take(i), port)),
            Err(why) => Err(why),
        },
    }
}

/// Where `c` occurs last in `s`.
fn find_last(s: &str, c: char) -> (res: Option<usize>)
    ensures
        match (res, last_index(s@, c)) {
            (Some(i), Some(j)) => i == j && i < s@.len(),
            (None, None) => true,
            _ => false,
        },
{
    let cs = text::chars_of(s);
    let mut n: usize = cs.len();
    proof {
        assert(cs@.take(n as int) =~= cs@);
    }
    while n > 0
        invariant
            n <= cs@.len(),
            cs@ == s@,
            last_index(s@, c) == last_index(cs@.take(n as int), c),
        decreases n,
    {
        if cs[n - 1] == c {
            return Some(n - 1);
        }
        proof {
            assert(cs@.take(n as int).drop_last() =~= cs@.take(n - 1));
        }
        n -= 1;
    }
    None
}

/// The host and port that an endpoint names: `host:port`, `host`, or either
/// behind `https://` or `quic://`.
pub fn parse_endpoint(endpoint: &str) -> (res: Result<(String, u16), Failure>)
    ensures
        match (res, endpoint_of(endpoint@)) {
            (Ok((host, port)), Ok((h, p))) => host@ == h && port == p,
            (Err(e), Err(why)) => e@ == failure::because("port"@, why),
            _ => false,
        },
{
    let rest: &str = match text::strip_prefix(endpoint, "https://") {
        Some(rest) => rest,
        None => match text::strip_prefix(endpoint, "quic://") {
            Some(rest) => rest,
            None => endpoint,
        },
    };
    match find_last(rest, ':') {
        None => Ok((rest.to_string(), DEFAULT_PORT)),
        Some(i) => {
            let n: usize = rest.unicode_len();
            proof {
                assert(rest@.subrange(i + 1, n as int) =~= rest@.skip(i + 1));
                assert(rest@.subrange(0, i as int) =~= rest@.take(i as int));
            }
            match text::parse_u16(rest.substring_char(i + 1, n)) {
                Ok(port) => Ok((rest.substring_char(0, i).to_string(), port)),
                Err(why) => Err(Failure::caused("port", why.to_string())),
            }
        },
    }
}

/// `host:port`.
pub open spec fn address_text(host: Seq<char>, port: u16) -> Seq<char> {
    host + ":"@ + text::decimal(port as nat)
}

/// The address to dial: the first that the name gave.
pub fn resolve<T>(first: Option<T>, host: &str, port: u16) -> (res: Result<T, String>)
    ensures
        match first {
            Some(addr) => res == Ok::<T, String>(addr),
            None => res is Err && res->Err_0@ == "no addresses for "@ + address_text(host@, port),
        },
{
    match first {
        Some(addr) => Ok(addr),
        None => {
            let port = text::decimal_text(port as u64);
            let addr = text::text3(host, ":", port.as_str());
            Err(text::text2("no addresses for ", addr.as_str()))
        },
    }
}

/// The tunnel's state: where to dial, and how long to wait after the next
/// failure.
#[derive(Debug)]
pub struct Tunnel {
    pub endpoint: String,
    pub backoff_secs: u64,
}

/// What happened to the tunnel.
#[derive(Debug)]
pub enum TunnelEvent {
    /// The tunnel begins, or the wait is over.
    Ready,
    /// The host could not be resolved, for this reason.
    Unresolved(String),
    /// The dial failed, for this reason.
    Failed(String),
    /// A connection to this address stands.
    Connected(String),
    /// The connection ended: closed by the cloud, or with this error.
    Ended(Option<String>),
}

/// What to do next.
#[derive(Debug)]
pub enum TunnelAction {
    /// Resolve this host and dial it.
    Dial { host: String, port: u16 },
    /// Wait so many seconds.
    Sleep(u64),
    /// Serve the streams of the connection.
    Serve,
    /// Give up.
    Stop(Failure),
}

/// What a [`TunnelEvent`] says.
#[verifier::ext_equal]
pub enum TunnelEventModel {
    Ready,
    Unresolved(Seq<char>),
    Failed(Seq<char>),
    Connected(Seq<char>),
    Ended(Option<Seq<char>>),
}

/// What a [`TunnelAction`] says.
#[verifier::ext_equal]
pub enum TunnelActionModel {
    Dial { host: Seq<char>, port: u16 },
    Sleep(u64),
    Serve,
    Stop(failure::FailureModel),
}

impl View for TunnelEvent {
    type V = TunnelEventModel;

    open spec fn view(&self) -> TunnelEventModel {
        match self {
            TunnelEvent::Ready => TunnelEventModel::Ready,
            TunnelEvent::Unresolved(e) => TunnelEventModel::Unresolved(e@),
            TunnelEvent::Failed(e) => TunnelEventModel::Failed(e@),
            TunnelEvent::Connected(addr) => TunnelEventModel::Connected(addr@),
            TunnelEvent::Ended(None) => TunnelEventModel::Ended(None),
            TunnelEvent::Ended(Some(e)) => TunnelEventModel::Ended(Some(e@)),
        }
    }
}

impl View for TunnelAction {
    type V = TunnelActionModel;

    open spec fn view(&self) -> TunnelActionModel {
        match self {
            TunnelAction::Dial { host, port } => TunnelActionModel::Dial {
                host: host@,
                port: *port,
            },
            TunnelAction::Sleep(secs) => TunnelActionModel::Sleep(*secs),
            TunnelAction::Serve => TunnelActionModel::Serve,
            TunnelAction::Stop(e) => TunnelActionModel::Stop(e@),
        }
    }
}

/// What one step of the tunnel gives: the wait after the next failure, the
/// event for the audit log if there is one, and what to do next.
#[verifier::ext_equal]
pub struct TunnelStep {
    pub backoff_secs: u64,
    pub event: Option<audit::EventModel>,
    pub action: TunnelActionModel,
}

/// The wait after a failure, given the wait before it.
pub open spec fn longer(backoff_secs: u64) -> u64 {
    if 2 * backoff_secs < MAX_BACKOFF_SECS {
        (2 * backoff_secs) as u64
    } else {
        MAX_BACKOFF_SECS
    }
}

/// What to do for the next dial.
pub open spec fn dial(endpoint: Seq<char>) -> TunnelActionModel {
    match endpoint_of(endpoint) {
        Ok((host, port)) => TunnelActionModel::Dial { host, port },
        Err(why) => TunnelActionModel::Stop(failure::because("port"@, why)),
    }
}

/// One step of the tunnel.
pub open spec fn step(
    endpoint: Seq<char>,
    backoff_secs: u64,
    event: TunnelEventModel,
) -> TunnelStep {
    match event {
        TunnelEventModel::Ready => TunnelStep {
            backoff_secs,
            event: None,
            action: dial(endpoint),
        },
        TunnelEventModel::Unresolved(e) => TunnelStep {
            backoff_secs,
            event: None,
            action: TunnelActionModel::Stop(
                match endpoint_of(endpoint) {
                    Ok((host, port)) => failure::because(
                        "resolve "@ + address_text(host, port),
                        e,
                    ),
                    Err(why) => failure::because("port"@, why),
                },
            ),
        },
        TunnelEventModel::Failed(e) => TunnelStep {
            backoff_secs: longer(backoff_secs),
            event: Some(
                audit::EventModel::Lifecycle { event: "connect_failed"@, detail: e },
            ),
            action: TunnelActionModel::Sleep(backoff_secs),
        },
        TunnelEventModel::Connected(addr) => TunnelStep {
            backoff_secs: 1,
            event: Some(
                audit::EventModel::Lifecycle { event: "connected"@, detail: "remote="@ + addr },
            ),
            action: TunnelActionModel::Serve,
        },
        TunnelEventModel::Ended(None) => TunnelStep {
            backoff_secs,
            event: None,
            action: dial(endpoint),
        },
        TunnelEventModel::Ended(Some(e)) => TunnelStep {
            backoff_secs,
            event: Some(audit::EventModel::Lifecycle { event: "disconnected"@, detail: e }),
            action: dial(endpoint),
        },
    }
}

impl Tunnel {
    /// The wait is one that the backoff can reach.
    pub open spec fn wf(&self) -> bool {
        1 <= self.backoff_secs <= MAX_BACKOFF_SECS
    }

    /// A tunnel that was never dialed.
    pub fn new(endpoint: &str) -> (res: Tunnel)
        ensures
            res.wf(),
            res.endpoint@ == endpoint@,
            res.backoff_secs == 1,
    {
        Tunnel { endpoint: endpoint.to_string(), backoff_secs: 1 }
    }

    fn dial(&self) -> (res: TunnelAction)
        ensures
            res@ == dial(self.endpoint@),
    {
        match parse_endpoint(self.endpoint.as_str()) {
            Ok((host, port)) => TunnelAction::Dial { host, port },
            Err(e) => TunnelAction::Stop(e),
        }
    }
}

/// One step of the tunnel: takes what happened, gives the event to record if
/// there is one, and what to do next.
pub fn run(tunnel: &mut Tunnel, event: TunnelEvent) -> (res: (Option<Event>, TunnelAction))
    requires
        old(tunnel).wf(),
    ensures
        final(tunnel).wf(),
        final(tunnel).endpoint@ == old(tunnel).endpoint@,
        ({
            let next = step(old(tunnel).endpoint@, old(tunnel).backoff_secs, event@);
            &&& final(tunnel).backoff_secs == next.backoff_secs
            &&& res.0 is Some <==> next.event is Some
            &&& res.0 matches Some(e) ==> next.event == Some(e@)
            &&& res.1@ == next.action
        }),
{
    match event {
        TunnelEvent::Ready => (None, tunnel.dial()),
        TunnelEvent::Unresolved(cause) => match parse_endpoint(tunnel.endpoint.as_str()) {
            Ok((host, port)) => {
                let port = text::decimal_text(port as u64);
                let addr = text::text3(host.as_str(), ":", port.as_str());
                let message = text::text2("resolve ", addr.as_str());
                (None, TunnelAction::Stop(Failure::caused(message.as_str(), cause)))
            },
            Err(e) => (None, TunnelAction::Stop(e)),
        },
        TunnelEvent::Failed(cause) => {
            let wait: u64 = tunnel.backoff_secs;
            tunnel.backoff_secs = if 2 * wait < MAX_BACKOFF_SECS {
                2 * wait
            } else {
                MAX_BACKOFF_SECS
            };
            (
                Some(audit::lifecycle("connect_failed", cause.as_str())),
                TunnelAction::Sleep(wait),
            )
        },
        TunnelEvent::Connected(addr) => {
            tunnel.backoff_secs = 1;
            let detail = text::text2("remote=", addr.as_str());
            (Some(audit::lifecycle("connected", detail.as_str())), TunnelAction::Serve)
        },
        TunnelEvent::Ended(None) => (None, tunnel.dial()),
        TunnelEvent::Ended(Some(cause)) => {
            (Some(audit::lifecycle("disconnected", cause.as_str())), tunnel.dial())
        },
    }
}

// ── Streams ─────────────────────────────────────────────────────────

/// Why no further stream comes.
#[derive(Debug)]
pub enum AcceptError {
    /// The cloud closed the connection.
    ApplicationClosed,
    /// The cloud's transport closed the connection.
    ConnectionClosed,
    /// Anything else.
    Other(String),
}

/// How the connection ended: without an error if the cloud closed it.
pub fn serve_streams(e: AcceptError) -> (res: Option<String>)
    ensures
        match e {
            AcceptError::ApplicationClosed => res is None,
            AcceptError::ConnectionClosed => res is None,
            AcceptError::Other(cause) => res == Some(cause),
        },
{
    match e {
        AcceptError::ApplicationClosed => None,
        AcceptError::ConnectionClosed => None,
        AcceptError::Other(cause) => Some(cause),
    }
}

/// No request is larger, in bytes: 64 MiB.
pub const MAX_REQUEST: u64 = 0x400_0000;

/// What happened on a stream.
pub enum StreamEvent {
    /// The stream was opened.
    Opened,
    /// The length prefix was read, or not, for this reason.
    Prefix(Result<[u8; 4], String>),
    /// The body was read, or not, for this reason.
    Body(Result<Vec<u8>, String>),
    /// The request was answered with this message.
    Reply(Vec<u8>),
    /// The body is no request, for this reason.
    Undecodable(String),
    /// The handler died, for this reason.
    Panicked(String),
    /// The response could not be encoded, for this reason.
    Unencodable(String),
    /// The response was written, or not, for this reason.
    Written(Result<(), String>),
    /// The stream was finished, or not, for this reason.
    Finished(Result<(), String>),
}

/// What to do next on a stream.
pub enum StreamAction {
    /// Read the length prefix.
    ReadPrefix,
    /// Read a body of so many bytes.
    ReadBody(usize),
    /// Parse this body, answer the request.
    Handle(Vec<u8>),
    /// Write these bytes.
    Write(Vec<u8>),
    /// Finish the stream.
    Finish,
    /// The RPC is done.
    Done,
    /// Give the stream up.
    Fail(Failure),
}

/// What a [`StreamAction`] says.
#[verifier::ext_equal]
pub enum StreamActionModel {
    ReadPrefix,
    ReadBody(nat),
    Handle(Seq<u8>),
    Write(Seq<u8>),
    Finish,
    Done,
    Fail(failure::FailureModel),
}

impl View for StreamAction {
    type V = StreamActionModel;

    open spec fn view(&self) -> StreamActionModel {
        match self {
            StreamAction::ReadPrefix => StreamActionModel::ReadPrefix,
            StreamAction::ReadBody(len) => StreamActionModel::ReadBody(*len as nat),
            StreamAction::Handle(body) => StreamActionModel::Handle(body@),
            StreamAction::Write(bytes) => StreamActionModel::Write(bytes@),
            StreamAction::Finish => StreamActionModel::Finish,
            StreamAction::Done => StreamActionModel::Done,
            StreamAction::Fail(e) => StreamActionModel::Fail(e@),
        }
    }
}

/// What to do once a length prefix was read: read the body, unless it is too
/// large.
pub open spec fn after_prefix(prefix: Seq<u8>) -> StreamActionModel {
    let len = wire::le32_value(prefix);
    if len > MAX_REQUEST {
        StreamActionModel::Fail(
            failure::plain("request too large: "@ + text::decimal(len) + " bytes"@),
        )
    } else {
        StreamActionModel::ReadBody(len)
    }
}

/// One step of a stream.
pub open spec fn stream_step(event: StreamEvent) -> StreamActionModel {
    match event {
        StreamEvent::Opened => StreamActionModel::ReadPrefix,
        StreamEvent::Prefix(Err(e)) => StreamActionModel::Fail(
            failure::plain("read length prefix: "@ + e@),
        ),
        StreamEvent::Prefix(Ok(prefix)) => after_prefix(prefix@),
        StreamEvent::Body(Err(e)) => StreamActionModel::Fail(
            failure::plain("read body: "@ + e@),
        ),
        StreamEvent::Body(Ok(body)) => StreamActionModel::Handle(body@),
        StreamEvent::Undecodable(e) => StreamActionModel::Fail(
            failure::because("decode request"@, e@),
        ),
        StreamEvent::Panicked(e) => StreamActionModel::Fail(
            failure::because("dispatch panicked"@, e@),
        ),
        StreamEvent::Unencodable(e) => StreamActionModel::Fail(
            failure::because("encode response"@, e@),
        ),
        StreamEvent::Reply(message) => StreamActionModel::Write(wire::frame(message@)),
        StreamEvent::Written(Err(e)) => StreamActionModel::Fail(
            failure::plain("write response: "@ + e@),
        ),
        StreamEvent::Written(Ok(_)) => StreamActionModel::Finish,
        StreamEvent::Finished(Err(e)) => StreamActionModel::Fail(
            failure::because("finish send stream"@, e@),
        ),
        StreamEvent::Finished(Ok(_)) => StreamActionModel::Done,
    }
}

/// One step of a stream, which carries one RPC: a framed request in, a framed
/// response out.
pub fn handle_stream(event: StreamEvent) -> (res: StreamAction)
    ensures
        res@ == stream_step(event),
{
    match event {
        StreamEvent::Opened => StreamAction::ReadPrefix,
        StreamEvent::Prefix(Err(e)) => {
            StreamAction::Fail(Failure::new(text::text2("read length prefix: ", e.as_str())))
        },
        StreamEvent::Prefix(Ok(prefix)) => {
            let len: u64 = prefix[0] as u64 + 0x100 * (prefix[1] as u64) + 0x1_0000 * (
            prefix[2] as u64) + 0x100_0000 * (prefix[3] as u64);
            if len > MAX_REQUEST {
                StreamAction::Fail(
                    Failure::new(
                        text::text3(
                            "request too large: ",
                            text::decimal_text(len).as_str(),
                            " bytes",
                        ),
                    ),
                )
            } else {
                StreamAction::ReadBody(len as usize)
            }
        },
        StreamEvent::Body(Err(e)) => {
            StreamAction::Fail(Failure::new(text::text2("read body: ", e.as_str())))
        },
        StreamEvent::Body(Ok(body)) => StreamAction::Handle(body),
        StreamEvent::Undecodable(e) => StreamAction::Fail(Failure::caused("decode request", e)),
        StreamEvent::Panicked(e) => StreamAction::Fail(Failure::caused("dispatch panicked", e)),
        StreamEvent::Unencodable(e) => StreamAction::Fail(Failure::caused("encode response", e)),
        StreamEvent::Reply(message) => StreamAction::Write(wire::encode(message.as_slice())),
        StreamEvent::Written(Err(e)) => {
            StreamAction::Fail(Failure::new(text::text2("write response: ", e.as_str())))
        },
        StreamEvent::Written(Ok(_)) => StreamAction::Finish,
        StreamEvent::Finished(Err(e)) => {
            StreamAction::Fail(Failure::caused("finish send stream", e))
        },
        StreamEvent::Finished(Ok(_)) => StreamAction::Done,
    }
}

// ── TLS ─────────────────────────────────────────────────────────────

/// A quiet connection is given up after so many seconds.
pub const MAX_IDLE_SECS: u64 = 300;

/// How often a quiet connection shows that it is alive, in seconds.
pub const KEEP_ALIVE_SECS: u64 = 60;

/// The certificates that a PEM text holds, if every section can be read.
pub open spec fn chain_of(sections: Seq<Result<Seq<u8>, Seq<char>>>) -> Result<
    Seq<Seq<u8>>,
    Seq<char>,
>
    decreases sections.len(),
{
    if sections.len() == 0 {
        Ok(Seq::empty())
    } else {
        match (chain_of(sections.drop_last()), sections.last()) {
            (Err(e), _) => Err(e),
            (Ok(_), Err(e)) => Err(e),
            (Ok(before), Ok(der)) => Ok(before.push(der)),
        }
    }
}

/// The views of some certificates.
pub open spec fn chain_model(chain: Seq<Vec<u8>>) -> Seq<Seq<u8>> {
    chain.map_values(|der: Vec<u8>| der@)
}

/// The certificates that were read, or the first error.
pub fn collect_certs(sections: Vec<Result<Vec<u8>, String>>) -> (res: Result<Vec<Vec<u8>>, String>)
    ensures
        match (res, chain_of(deps::sections_model(sections@))) {
            (Ok(chain), Ok(m)) => chain_model(chain@) == m,
            (Err(e), Err(m)) => e@ == m,
            _ => false,
        },
{
    let ghost given = sections@;
    let ghost all = deps::sections_model(sections@);
    let mut chain: Vec<Vec<u8>> = Vec::new();
    proof {
        assert(all.take(0) =~= Seq::empty());
        assert(chain_model(chain@) =~= Seq::<Seq<u8>>::empty());
    }
    for section in it: sections
        invariant
            it.seq() == given,
            all == deps::sections_model(given),
            chain_of(all.take(it.index())) == Ok::<Seq<Seq<u8>>, Seq<char>>(
                chain_model(chain@),
            ),
    {
        let ghost i = it.index();
        let ghost before = chain_model(chain@);
        proof {
            assert(all.take(i + 1).drop_last() =~= all.take(i));
            assert(all.take(i + 1).last() == all[i]);
        }
        match section {
            Ok(der) => {
                chain.push(der);
                assert(chain_model(chain@) =~= before.push(der@));
            },
            Err(e) => {
                proof {
                    lemma_first_error(all, i + 1);
                }
                return Err(e);
            },
        }
    }
    proof {
        assert(all.take(all.len() as int) =~= all);
    }
    Ok(chain)
}

/// The first error stays the answer, whatever follows it.
proof fn lemma_first_error(sections: Seq<Result<Seq<u8>, Seq<char>>>, k: int)
    requires
        0 <= k <= sections.len(),
        chain_of(sections.take(k)) is Err,
    ensures
        chain_of(sections) == chain_of(sections.take(k)),
    decreases sections.len() - k,
{
    if k < sections.len() {
        assert(sections.take(k + 1).drop_last() =~= sections.take(k));
        lemma_first_error(sections, k + 1);
    } else {
        assert(sections.take(k) =~= sections);
    }
}

/// The certificates in a PEM text.
pub fn load_certs(pem: &[u8]) -> (res: Result<Vec<Vec<u8>>, String>)
    ensures
        match (res, chain_of(deps::pem_certs_of(pem@))) {
            (Ok(chain), Ok(m)) => chain_model(chain@) == m,
            (Err(e), Err(m)) => e@ == m,
            _ => false,
        },
{
    collect_certs(deps::pem_certs(pem))
}

/// The key that was found in the file at `path`, or that there is none.
pub fn found_key(
    found: Result<Option<(KeyFormat, Vec<u8>)>, String>,
    path: &str,
) -> (res: Result<(KeyFormat, Vec<u8>), String>)
    ensures
        match found {
            Ok(Some(key)) => res == Ok::<(KeyFormat, Vec<u8>), String>(key),
            Ok(None) => res is Err && res->Err_0@ == "no private key in "@ + path@,
            Err(e) => res == Err::<(KeyFormat, Vec<u8>), String>(e),
        },
{
    match found {
        Ok(Some(key)) => Ok(key),
        Ok(None) => Err(text::text2("no private key in ", path)),
        Err(e) => Err(e),
    }
}

/// The private key in a PEM text, which is in the file at `path`.
pub fn load_key(pem: &[u8], path: &str) -> (res: Result<(KeyFormat, Vec<u8>), String>)
    ensures
        match deps::pem_key_of(pem@) {
            Ok(Some((format, der))) => {
                &&& res is Ok
                &&& res->Ok_0.0 == format
                &&& res->Ok_0.1@ == der
            },
            Ok(None) => res is Err && res->Err_0@ == "no private key in "@ + path@,
            Err(e) => res is Err && res->Err_0@ == e,
        },
{
    found_key(deps::pem_key(pem), path)
}

/// How the cloud's certificate is verified.
#[derive(Debug)]
pub enum Verifier {
    /// It must be the pinned one.
    Pinned(PinnedVerifier),
    /// Any will do: for tests against a mock cloud.
    Any,
}

/// What the TLS client is made of.
#[derive(Debug)]
pub struct ClientPlan {
    pub chain: Vec<Vec<u8>>,
    pub key: (KeyFormat, Vec<u8>),
    pub verifier: Verifier,
    pub max_idle_secs: u64,
    pub keep_alive_secs: u64,
}

/// Whether the TLS client may be built from these, and if not, why: the daemon
/// never connects without a pin, other than in tests.
pub open spec fn client_refused(
    chain: Result<Vec<Vec<u8>>, String>,
    key: Result<(KeyFormat, Vec<u8>), String>,
    pin: Option<Vec<u8>>,
    dev: bool,
) -> Option<failure::FailureModel> {
    match (chain, key) {
        (Err(e), _) => Some(failure::because("load daemon cert"@, e@)),
        (Ok(_), Err(e)) => Some(failure::because("load daemon key"@, e@)),
        (Ok(_), Ok(_)) => if pin is None && !dev {
            Some(
                failure::plain(
                    "cloud pin missing — daemon must be paired before connecting"@,
                ),
            )
        } else {
            None
        },
    }
}

/// How the cloud's certificate is verified, given the contents of the pin file.
pub open spec fn verifier_for(pin: Option<Vec<u8>>) -> Verifier {
    match pin {
        Some(pin) => Verifier::Pinned(PinnedVerifier { pin }),
        None => Verifier::Any,
    }
}

/// Plans the TLS client from the daemon's certificates and key, as far as they
/// could be loaded, and the cloud's pin.
pub fn build_client_config(
    chain: Result<Vec<Vec<u8>>, String>,
    key: Result<(KeyFormat, Vec<u8>), String>,
    pin: Option<Vec<u8>>,
    dev: bool,
) -> (res: Result<ClientPlan, Failure>)
    ensures
        match (res, client_refused(chain, key, pin, dev)) {
            (Ok(plan), None) => {
                &&& chain == Ok::<Vec<Vec<u8>>, String>(plan.chain)
                &&& key == Ok::<(KeyFormat, Vec<u8>), String>(plan.key)
                &&& plan.verifier == verifier_for(pin)
                &&& plan.max_idle_secs == MAX_IDLE_SECS
                &&& plan.keep_alive_secs == KEEP_ALIVE_SECS
            },
            (Err(e), Some(why)) => e@ == why,
            _ => false,
        },
{
    let chain = match chain {
        Ok(chain) => chain,
        Err(e) => {
            return Err(Failure::caused("load daemon cert", e));
        },
    };
    let key = match key {
        Ok(key) => key,
        Err(e) => {
            return Err(Failure::caused("load daemon key", e));
        },
    };
    let verifier = match pin {
        Some(pin) => Verifier::Pinned(PinnedVerifier { pin }),
        None => {
            if !dev {
                return Err(
                    Failure::new(
                        "cloud pin missing — daemon must be paired before connecting".to_string(),
                    ),
                );
            }
            Verifier::Any
        },
    };
    Ok(
        ClientPlan {
            chain,
            key,
            verifier,
            max_idle_secs: MAX_IDLE_SECS,
            keep_alive_secs: KEEP_ALIVE_SECS,
        },
    )
}

pub const ECDSA_NISTP256_SHA256: u16 = 0x0403;

pub const ECDSA_NISTP384_SHA384: u16 = 0x0503;

pub const RSA_PSS_SHA256: u16 = 0x0804;

pub const RSA_PSS_SHA384: u16 = 0x0805;

pub const RSA_PSS_SHA512: u16 = 0x0806;

pub const RSA_PKCS1_SHA256: u16 = 0x0401;

pub const RSA_PKCS1_SHA384: u16 = 0x0501;

pub const RSA_PKCS1_SHA512: u16 = 0x0601;

pub const ED25519: u16 = 0x0807;

/// The signature schemes that are accepted in a handshake, by their TLS
/// numbers, the preferred ones first.
pub fn supported_schemes() -> (res: Vec<u16>)
    ensures
        res@ == seq![
            ECDSA_NISTP256_SHA256,
            ECDSA_NISTP384_SHA384,
            RSA_PSS_SHA256,
            RSA_PSS_SHA384,
            RSA_PSS_SHA512,
            RSA_PKCS1_SHA256,
            RSA_PKCS1_SHA384,
            RSA_PKCS1_SHA512,
            ED25519,
        ],
{
    let mut out: Vec<u16> = Vec::new();
    out.push(ECDSA_NISTP256_SHA256);
    out.push(ECDSA_NISTP384_SHA384);
    out.push(RSA_PSS_SHA256);
    out.push(RSA_PSS_SHA384);
    out.push(RSA_PSS_SHA512);
    out.push(RSA_PKCS1_SHA256);
    out.push(RSA_PKCS1_SHA384);
    out.push(RSA_PKCS1_SHA512);
    out.push(ED25519);
    out
}

/// Accepts the cloud's certificate only if its hash is the pinned one.
#[derive(Debug)]
pub struct PinnedVerifier {
    /// The contents of the pin file: the hash in hexadecimal, or its raw bytes.
    pub pin: Vec<u8>,
}

/// The hash that a pin file stands for.
pub open spec fn pinned_hash(pin: Seq<u8>) -> Seq<u8> {
    match hex::hex_decoded(pin) {
        Some(bytes) => bytes,
        None => pin,
    }
}

/// The hash of a certificate's DER that is pinned.
pub fn pin_hash(data: &[u8]) -> (res: Vec<u8>)
    ensures
        res@ == deps::blake3_of(data@),
        res@.len() == 32,
{
    deps::blake3_hash(data)
}

impl PinnedVerifier {
    /// Verifies a certificate by its hash.
    pub fn verify_hash(&self, hash: &[u8]) -> (res: Result<(), String>)
        ensures
            res is Ok <==> hash@ == pinned_hash(self.pin@),
            res matches Err(e) ==> e@ == "cloud cert pin mismatch: got "@ + text::decimal(
                hash@.len(),
            ) + " bytes, expected "@ + text::decimal(pinned_hash(self.pin@).len()) + " bytes"@,
    {
        let decoded = hex::hex_decode(self.pin.as_slice());
        let expected: &[u8] = match &decoded {
            Some(bytes) => bytes.as_slice(),
            None => self.pin.as_slice(),
        };
        if text::same_bytes(hash, expected) {
            Ok(())
        } else {
            Err(
                text::text5(
                    "cloud cert pin mismatch: got ",
                    text::decimal_text(hash.len() as u64).as_str(),
                    " bytes, expected ",
                    text::decimal_text(expected.len() as u64).as_str(),
                    " bytes",
                ),
            )
        }
    }

    /// Verifies the certificate of the cloud, given as DER.
    pub fn verify_server_cert(&self, end_entity: &[u8]) -> (res: Result<(), String>)
        ensures
            res is Ok <==> deps::blake3_of(end_entity@) == pinned_hash(self.pin@),
            res matches Err(e) ==> e@ == "cloud cert pin mismatch: got "@ + text::decimal(32)
                + " bytes, expected "@ + text::decimal(pinned_hash(self.pin@).len()) + " bytes"@,
    {
        let hash = pin_hash(end_entity);
        self.verify_hash(hash.as_slice())
    }
}

// ── Laws ────────────────────────────────────────────────────────────

/// The daemon fails closed: without certificate, key and pin it neither dials
/// nor builds a client, and the client that it builds accepts the pinned
/// certificate only.
pub proof fn law_fails_closed(
    files: PairingFiles,
    chain: Result<Vec<Vec<u8>>, String>,
    key: Result<(KeyFormat, Vec<u8>), String>,
    pin: Option<Vec<u8>>,
)
    ensures
        unpaired(files, false) is None <==> files.cert && files.key && files.pin,
        client_refused(chain, key, pin, false) is None <==> chain is Ok && key is Ok && pin is Some,
{
}

proof fn lemma_last_index(s: Seq<char>, c: char, tail: Seq<char>)
    requires
        forall|i: int| 0 <= i < tail.len() ==> #[trigger] tail[i] != c,
    ensures
        last_index(s.push(c) + tail, c) == Some(s.len() as int),
    decreases tail.len(),
{
    let whole = s.push(c) + tail;
    if tail.len() == 0 {
        assert(whole =~= s.push(c));
    } else {
        let rest = tail.drop_last();
        assert(whole.last() == tail[tail.len() - 1]);
        assert(whole.drop_last() =~= s.push(c) + rest);
        assert forall|i: int| 0 <= i < rest.len() implies #[trigger] rest[i] != c by {
            assert(rest[i] == tail[i]);
        }
        lemma_last_index(s, c, rest);
    }
}

/// Behind its scheme, an endpoint is read as its host and port.
proof fn lemma_address(endpoint: Seq<char>, host: Seq<char>, port: u16)
    requires
        without_scheme(endpoint) == address_text(host, port),
    ensures
        endpoint_of(endpoint) == Ok::<(Seq<char>, u16), Seq<char>>((host, port)),
{
    reveal_strlit(":");
    let digits = text::decimal(port as nat);
    let addr = address_text(host, port);
    text::lemma_decimal_digits(port as nat);
    text::law_decimal_round_trip(port);
    assert(addr =~= host.push(':') + digits);
    assert forall|i: int| 0 <= i < digits.len() implies #[trigger] digits[i] != ':' by {
        assert(text::is_digit(digits[i]));
    }
    lemma_last_index(host, ':', digits);
    assert(addr.skip(host.len() as int + 1) =~= digits);
    assert(addr.take(host.len() as int) =~= host);
}

/// An endpoint written out of a scheme, a host and a port names that host and that
/// port.
pub proof fn law_endpoint_round_trip(host: Seq<char>, port: u16)
    ensures
        endpoint_of("https://"@ + address_text(host, port)) == Ok::<(Seq<char>, u16), Seq<char>>(
            (host, port),
        ),
        endpoint_of("quic://"@ + address_text(host, port)) == Ok::<(Seq<char>, u16), Seq<char>>(
            (host, port),
        ),
{
    reveal_strlit("https://");
    reveal_strlit("quic://");
    let addr = address_text(host, port);
    let secure = "https://"@ + addr;
    assert(secure.take("https://"@.len() as int) =~= "https://"@);
    assert(secure.skip("https://"@.len() as int) =~= addr);
    let quic = "quic://"@ + addr;
    assert(quic.take("quic://"@.len() as int) =~= "quic://"@);
    assert(quic.skip("quic://"@.len() as int) =~= addr);
    assert(!text::begins_with(quic, "https://"@)) by {
        if text::begins_with(quic, "https://"@) {
            assert(quic.take("https://"@.len() as int)[0] == "https://"@[0]);
        }
    }
    lemma_address(secure, host, port);
    lemma_address(quic, host, port);
}

/// An endpoint written out of a host and a port alone names them too, if the host
/// does not itself look like a scheme.
pub proof fn law_bare_endpoint_round_trip(host: Seq<char>, port: u16)
    requires
        without_scheme(address_text(host, port)) == address_text(host, port),
    ensures
        endpoint_of(address_text(host, port)) == Ok::<(Seq<char>, u16), Seq<char>>((host, port)),
{
    lemma_address(address_text(host, port), host, port);
}

/// The daemon dials one address: whatever happened, the next dial goes to the
/// endpoint that it was paired with.
pub proof fn law_dials_the_endpoint_only(
    endpoint: Seq<char>,
    backoff_secs: u64,
    event: TunnelEventModel,
)
    ensures
        step(endpoint, backoff_secs, event).action matches TunnelActionModel::Dial { host, port }
            ==> endpoint_of(endpoint) == Ok::<(Seq<char>, u16), Seq<char>>((host, port)),
{
}

/// The waits before the next dials, if every dial fails.
pub open spec fn waits(backoff_secs: u64, failures: nat) -> Seq<u64>
    decreases failures,
{
    if failures == 0 {
        Seq::empty()
    } else {
        seq![backoff_secs] + waits(longer(backoff_secs), (failures - 1) as nat)
    }
}

/// Two to the power of `n`.
pub open spec fn power_of_two(n: nat) -> nat
    decreases n,
{
    if n == 0 {
        1
    } else {
        2 * power_of_two((n - 1) as nat)
    }
}

/// The wait doubles with each failure in a row, from one second up to a minute
/// and not beyond.
pub proof fn law_backoff_is_exponential(failures: nat)
    ensures
        waits(1, failures).len() == failures,
        forall|k: int|
            0 <= k < failures ==> #[trigger] waits(1, failures)[k] == if power_of_two(k as nat)
                < MAX_BACKOFF_SECS {
                power_of_two(k as nat)
            } else {
                MAX_BACKOFF_SECS as nat
            },
{
    lemma_waits(0, 1, failures);
}

proof fn lemma_waits(from: nat, backoff_secs: u64, failures: nat)
    requires
        backoff_secs == if power_of_two(from) < MAX_BACKOFF_SECS {
            power_of_two(from)
        } else {
            MAX_BACKOFF_SECS as nat
        },
    ensures
        waits(backoff_secs, failures).len() == failures,
        forall|k: int|
            0 <= k < failures ==> #[trigger] waits(backoff_secs, failures)[k]
                == if power_of_two((from + k) as nat) < MAX_BACKOFF_SECS {
                power_of_two((from + k) as nat)
            } else {
                MAX_BACKOFF_SECS as nat
            },
    decreases failures,
{
    if failures > 0 {
        let rest = waits(longer(backoff_secs), (failures - 1) as nat);
        lemma_waits(from + 1, longer(backoff_secs), (failures - 1) as nat);
        assert forall|k: int| 0 <= k < failures implies #[trigger] waits(backoff_secs, failures)[k]
            == if power_of_two((from + k) as nat) < MAX_BACKOFF_SECS {
            power_of_two((from + k) as nat)
        } else {
            MAX_BACKOFF_SECS as nat
        } by {
            if k > 0 {
                assert(waits(backoff_secs, failures)[k] == rest[k - 1]);
                assert((from + 1) + (k - 1) == from + k);
            }
        }
    }
}

/// A failed dial is waited out as long as the backoff says, and lengthens it;
/// a connection starts it over.
pub proof fn law_backoff_resets(
    endpoint: Seq<char>,
    backoff_secs: u64,
    cause: Seq<char>,
    addr: Seq<char>,
)
    requires
        1 <= backoff_secs <= MAX_BACKOFF_SECS,
    ensures
        ({
            let failed = step(endpoint, backoff_secs, TunnelEventModel::Failed(cause));
            &&& failed.action == TunnelActionModel::Sleep(backoff_secs)
            &&& backoff_secs <= failed.backoff_secs <= MAX_BACKOFF_SECS
            &&& step(endpoint, backoff_secs, TunnelEventModel::Connected(addr)).backoff_secs == 1
        }),
{
}

/// A stream takes one frame: of a framed request that is not too large it
/// reads the prefix and then exactly the body.
pub proof fn law_stream_takes_one_frame(body: Seq<u8>)
    requires
        body.len() < 0x1_0000_0000,
    ensures
        body.len() <= MAX_REQUEST ==> after_prefix(wire::frame(body).take(4))
            == StreamActionModel::ReadBody(body.len()),
        body.len() > MAX_REQUEST ==> after_prefix(wire::frame(body).take(4)) is Fail,
        wire::frame(body).skip(4) == body,
{
    wire::law_decode_encode(body, Seq::empty());
    let frame = wire::frame(body);
    assert(frame + Seq::<u8>::empty() =~= frame);
    assert(wire::le32_value(frame.take(4)) == wire::le32_value(frame));
    assert(frame.skip(4) =~= body);
}

/// A quiet connection shows that it is alive at least twice before it would be
/// given up.
pub proof fn law_keep_alive_in_time()
    ensures
        2 * KEEP_ALIVE_SECS < MAX_IDLE_SECS,
{
}

/// The pin of a certificate, in hexadecimal, is met by that certificate, and by
/// another one only if both have the same hash.
pub proof fn law_pin_is_met_by_its_certificate(der: Seq<u8>, other: Seq<u8>)
    ensures
        ({
            let pin = vstd::utf8::encode_utf8(hex::hex_of(deps::blake3_of(der)));
            &&& pinned_hash(pin) == deps::blake3_of(der)
            &&& deps::blake3_of(other) == pinned_hash(pin) <==> deps::blake3_of(other)
                == deps::blake3_of(der)
        }),
{
    hex::law_hex_round_trip(deps::blake3_of(der));
}

/// A text without a colon has none anywhere.
proof fn lemma_no_colon(s: Seq<char>)
    requires
        !s.contains(':'),
    ensures
        last_index(s, ':') is None,
    decreases s.len(),
{
    if s.len() > 0 {
        assert(s.contains(s.last()));
        assert(!s.drop_last().contains(':')) by {
            if s.drop_last().contains(':') {
                let k = choose|k: int| 0 <= k < s.len() - 1 && s.drop_last()[k] == ':';
                assert(s[k] == ':');
            }
        }
        lemma_no_colon(s.drop_last());
    }
}

/// An endpoint that names no port is dialed at the port of HTTPS, whichever of the
/// schemes it is written with.
pub proof fn law_endpoint_without_port(host: Seq<char>)
    requires
        !host.contains(':'),
    ensures
        endpoint_of("https://"@ + host) == Ok::<(Seq<char>, u16), Seq<char>>((host, 443)),
        endpoint_of("quic://"@ + host) == Ok::<(Seq<char>, u16), Seq<char>>((host, 443)),
        endpoint_of(host) == Ok::<(Seq<char>, u16), Seq<char>>((host, 443)),
{
    reveal_strlit("https://");
    reveal_strlit("quic://");
    lemma_no_colon(host);
    let secure = "https://"@ + host;
    assert(secure.take("https://"@.len() as int) =~= "https://"@);
    assert(secure.skip("https://"@.len() as int) =~= host);
    let quic = "quic://"@ + host;
    assert(quic.take("quic://"@.len() as int) =~= "quic://"@);
    assert(quic.skip("quic://"@.len() as int) =~= host);
    assert(!text::begins_with(quic, "https://"@)) by {
        if text::begins_with(quic, "https://"@) {
            assert(quic.take("https://"@.len() as int)[0] == "https://"@[0]);
        }
    }
    if text::begins_with(host, "https://"@) {
        assert(host.take("https://"@.len() as int)[5] == "https://"@[5]);
        assert(host[5] == ':');
    }
    if text::begins_with(host, "quic://"@) {
        assert(host.take("quic://"@.len() as int)[4] == "quic://"@[4]);
        assert(host[4] == ':');
    }
}

/// An endpoint whose port is none is refused, for the reason that its text is no
/// port.
pub proof fn law_endpoint_with_bad_port(host: Seq<char>, port: Seq<char>)
    requires
        !port.contains(':'),
        text::number_u16(port) is Err,
    ensures
        endpoint_of("https://"@ + host + ":"@ + port) == Err::<(Seq<char>, u16), Seq<char>>(
            text::number_u16(port)->Err_0,
        ),
{
    reveal_strlit("https://");
    reveal_strlit(":");
    let rest = host.push(':') + port;
    let whole = "https://"@ + host + ":"@ + port;
    assert(whole =~= "https://"@ + rest);
    assert(whole.take("https://"@.len() as int) =~= "https://"@);
    assert(whole.skip("https://"@.len() as int) =~= rest);
    assert forall|i: int| 0 <= i < port.len() implies #[trigger] port[i] != ':' by {
        assert(port.contains(port[i]));
    }
    lemma_last_index(host, ':', port);
    assert(rest.skip(host.len() as int + 1) =~= port);
}

/// The daemon keeps dialing: at the start, after each wait and after each end of a
/// connection it dials the endpoint at once, with the backoff as it was; after a
/// failure it waits; with a connection it serves. It stops only where it cannot
/// know whom to dial.
pub proof fn law_tunnel_keeps_dialing(
    endpoint: Seq<char>,
    backoff_secs: u64,
    host: Seq<char>,
    port: u16,
    why: Seq<char>,
)
    requires
        endpoint_of(endpoint) == Ok::<(Seq<char>, u16), Seq<char>>((host, port)),
    ensures
        ({
            let dialing = TunnelActionModel::Dial { host, port };
            let ready = step(endpoint, backoff_secs, TunnelEventModel::Ready);
            let closed = step(endpoint, backoff_secs, TunnelEventModel::Ended(None));
            let broken = step(endpoint, backoff_secs, TunnelEventModel::Ended(Some(why)));
            let failed = step(endpoint, backoff_secs, TunnelEventModel::Failed(why));
            let connected = step(endpoint, backoff_secs, TunnelEventModel::Connected(why));
            let unresolved = step(endpoint, backoff_secs, TunnelEventModel::Unresolved(why));
            &&& ready.action == dialing && ready.backoff_secs == backoff_secs
            &&& closed.action == dialing && closed.backoff_secs == backoff_secs
            &&& broken.action == dialing && broken.backoff_secs == backoff_secs
            &&& failed.action == TunnelActionModel::Sleep(backoff_secs)
            &&& connected.action is Serve && connected.backoff_secs == 1
            &&& unresolved.action is Stop
            &&& unresolved.action->Stop_0.message == "resolve "@ + (host + ":"@ + text::decimal(
                port as nat,
            ))
            &&& unresolved.action->Stop_0.cause == Some(why)
        }),
{
}

/// A connection's life is recorded: that it stands and with whom, that a dial
/// failed and why, that it broke and why; and nothing where nothing happened.
pub proof fn law_tunnel_is_audited(endpoint: Seq<char>, backoff_secs: u64, why: Seq<char>)
    ensures
        step(endpoint, backoff_secs, TunnelEventModel::Connected(why)).event == Some(
            audit::EventModel::Lifecycle { event: "connected"@, detail: "remote="@ + why },
        ),
        step(endpoint, backoff_secs, TunnelEventModel::Failed(why)).event == Some(
            audit::EventModel::Lifecycle { event: "connect_failed"@, detail: why },
        ),
        step(endpoint, backoff_secs, TunnelEventModel::Ended(Some(why))).event == Some(
            audit::EventModel::Lifecycle { event: "disconnected"@, detail: why },
        ),
        step(endpoint, backoff_secs, TunnelEventModel::Ready).event is None,
        step(endpoint, backoff_secs, TunnelEventModel::Ended(None)).event is None,
        step(endpoint, backoff_secs, TunnelEventModel::Unresolved(why)).event is None,
{
}

/// An endpoint that cannot be read stops the tunnel, with the reason.
pub proof fn law_bad_endpoint_stops(endpoint: Seq<char>, backoff_secs: u64, why: Seq<char>)
    requires
        endpoint_of(endpoint) == Err::<(Seq<char>, u16), Seq<char>>(why),
    ensures
        ({
            let stopped = step(endpoint, backoff_secs, TunnelEventModel::Ready).action;
            &&& stopped is Stop
            &&& stopped->Stop_0.message == "port"@
            &&& stopped->Stop_0.cause == Some(why)
        }),
{
}

/// After a failed dial the next wait is twice as long, and never more than a
/// minute.
pub proof fn law_failure_doubles_the_wait(endpoint: Seq<char>, backoff_secs: u64, why: Seq<char>)
    requires
        1 <= backoff_secs <= 60,
    ensures
        ({
            let next = step(endpoint, backoff_secs, TunnelEventModel::Failed(why)).backoff_secs;
            &&& backoff_secs <= 30 ==> next == 2 * backoff_secs
            &&& backoff_secs > 30 ==> next == 60
        }),
{
}

/// A stream carries one RPC from its start to its end: the length, the body, the
/// request, the framed answer, the end; each as soon as the one before it is done.
pub proof fn law_stream_carries_one_rpc(
    prefix: [u8; 4],
    body: Vec<u8>,
    message: Vec<u8>,
)
    requires
        wire::le32_value(prefix@) <= 64 * 1024 * 1024,
    ensures
        stream_step(StreamEvent::Opened) is ReadPrefix,
        stream_step(StreamEvent::Prefix(Ok(prefix))) == StreamActionModel::ReadBody(
            wire::le32_value(prefix@),
        ),
        stream_step(StreamEvent::Body(Ok(body))) == StreamActionModel::Handle(body@),
        stream_step(StreamEvent::Reply(message)) == StreamActionModel::Write(
            wire::frame(message@),
        ),
        stream_step(StreamEvent::Written(Ok(()))) is Finish,
        stream_step(StreamEvent::Finished(Ok(()))) is Done,
{
}

/// Whatever fails on a stream gives that stream up, with the reason.
pub proof fn law_failed_stream_is_given_up(prefix: [u8; 4], e: String)
    ensures
        wire::le32_value(prefix@) > 64 * 1024 * 1024 ==> stream_step(
            StreamEvent::Prefix(Ok(prefix)),
        ) == StreamActionModel::Fail(
            failure::FailureModel {
                message: "request too large: "@ + text::decimal(wire::le32_value(prefix@))
                    + " bytes"@,
                cause: None,
            },
        ),
        stream_step(StreamEvent::Prefix(Err(e))) == StreamActionModel::Fail(
            failure::FailureModel { message: "read length prefix: "@ + e@, cause: None },
        ),
        stream_step(StreamEvent::Body(Err(e))) == StreamActionModel::Fail(
            failure::FailureModel { message: "read body: "@ + e@, cause: None },
        ),
        stream_step(StreamEvent::Written(Err(e))) == StreamActionModel::Fail(
            failure::FailureModel { message: "write response: "@ + e@, cause: None },
        ),
        stream_step(StreamEvent::Undecodable(e)) == StreamActionModel::Fail(
            failure::FailureModel { message: "decode request"@, cause: Some(e@) },
        ),
        stream_step(StreamEvent::Panicked(e)) == StreamActionModel::Fail(
            failure::FailureModel { message: "dispatch panicked"@, cause: Some(e@) },
        ),
        stream_step(StreamEvent::Unencodable(e)) == StreamActionModel::Fail(
            failure::FailureModel { message: "encode response"@, cause: Some(e@) },
        ),
        stream_step(StreamEvent::Finished(Err(e))) == StreamActionModel::Fail(
            failure::FailureModel { message: "finish send stream"@, cause: Some(e@) },
        ),
{
}

/// A paired daemon may dial, and an unpaired one is told what is missing: its
/// certificate or key first, then the cloud's pin. Only tests do without a pin.
pub proof fn law_paired_daemon_may_dial(files: PairingFiles, dev: bool)
    ensures
        files.cert && files.key && (files.pin || dev) ==> unpaired(files, dev) is None,
        !(files.cert && files.key) ==> unpaired(files, dev) is Some && text::begins_with(
            unpaired(files, dev)->Some_0,
            "daemon not paired: missing cert at "@ + files.cert_path@ + " or key at "@
                + files.key_path@,
        ),
        files.cert && files.key && !files.pin && !dev ==> unpaired(files, dev) is Some
            && text::begins_with(
            unpaired(files, dev)->Some_0,
            "daemon not paired: cloud pin missing at "@ + files.pin_path@,
        ),
{
    let a = "daemon not paired: missing cert at "@ + files.cert_path@ + " or key at "@
        + files.key_path@;
    let b = "daemon not paired: cloud pin missing at "@ + files.pin_path@;
    if unpaired(files, dev) is Some {
        let why = unpaired(files, dev)->Some_0;
        if !files.cert || !files.key {
            assert(why.take(a.len() as int) =~= a);
        } else {
            assert(why.take(b.len() as int) =~= b);
        }
    }
}

/// A client is built from a certificate and a key, with a pin or in tests; what is
/// wrong with the first of them that is wrong is said.
pub proof fn law_client_is_built_when_it_can_be(
    chain: Result<Vec<Vec<u8>>, String>,
    key: Result<(KeyFormat, Vec<u8>), String>,
    pin: Option<Vec<u8>>,
    dev: bool,
)
    ensures
        chain is Ok && key is Ok && (pin is Some || dev) ==> client_refused(
            chain,
            key,
            pin,
            dev,
        ) is None,
        chain matches Err(e) ==> client_refused(chain, key, pin, dev) == Some(
            failure::FailureModel { message: "load daemon cert"@, cause: Some(e@) },
        ),
        chain is Ok ==> (key matches Err(e) ==> client_refused(chain, key, pin, dev) == Some(
            failure::FailureModel { message: "load daemon key"@, cause: Some(e@) },
        )),
        chain is Ok && key is Ok && pin is None && !dev ==> client_refused(
            chain,
            key,
            pin,
            dev,
        ) is Some,
{
}

/// All certificates of a chain are loaded, in their order, if all can be read; if
/// not, the first that cannot says why.
pub proof fn law_chain_is_loaded_in_order(
    ders: Seq<Seq<u8>>,
    why: Seq<char>,
    more: Seq<Result<Seq<u8>, Seq<char>>>,
)
    ensures
        chain_of(ders.map_values(|d: Seq<u8>| Ok::<Seq<u8>, Seq<char>>(d))) == Ok::<
            Seq<Seq<u8>>,
            Seq<char>,
        >(ders),
        chain_of(
            ders.map_values(|d: Seq<u8>| Ok::<Seq<u8>, Seq<char>>(d)).push(Err(why)) + more,
        ) == Err::<Seq<Seq<u8>>, Seq<char>>(why),
    decreases ders.len(),
{
    let all = ders.map_values(|d: Seq<u8>| Ok::<Seq<u8>, Seq<char>>(d));
    if ders.len() > 0 {
        let front = ders.drop_last();
        law_chain_is_loaded_in_order(front, why, more);
        assert(all.drop_last() =~= front.map_values(|d: Seq<u8>| Ok::<Seq<u8>, Seq<char>>(d)));
        assert(all.last() == Ok::<Seq<u8>, Seq<char>>(ders.last()));
        assert(front.push(ders.last()) =~= ders);
    } else {
        assert(ders =~= Seq::<Seq<u8>>::empty());
    }
    let broken = all.push(Err(why));
    let whole = broken + more;
    assert(broken.drop_last() =~= all);
    assert(chain_of(broken) == Err::<Seq<Seq<u8>>, Seq<char>>(why));
    assert(whole.take(broken.len() as int) =~= broken);
    lemma_first_error(whole, broken.len() as int);
}

/// A pin file holds the hash in hexadecimal, white space around it aside, or its
/// raw bytes: what is no text is taken as it is.
pub proof fn law_pin_file_forms(lead: Seq<char>, hash: Seq<u8>, tail: Seq<char>, raw: Seq<u8>)
    requires
        text::is_blank(lead),
        text::is_blank(tail),
        !vstd::utf8::valid_utf8(raw),
    ensures
        pinned_hash(vstd::utf8::encode_utf8(lead + hex::hex_of(hash) + tail)) == hash,
        pinned_hash(raw) == raw,
{
    hex::law_padded_hex_is_read(lead, hash, tail);
}

/// A daemon with a pin accepts nothing but the pinned certificate; outside tests
/// there is no client without one.
pub proof fn law_pinned_client_verifies(
    chain: Result<Vec<Vec<u8>>, String>,
    key: Result<(KeyFormat, Vec<u8>), String>,
    pin: Option<Vec<u8>>,
    dev: bool,
)
    ensures
        pin matches Some(bytes) ==> verifier_for(pin) matches Verifier::Pinned(verifier)
            && verifier.pin == bytes,
        !dev && client_refused(chain, key, pin, dev) is None ==> verifier_for(pin) is Pinned,
{
}

/// What an event and an action say is what they hold.
pub proof fn law_actions_say_what_they_hold(text: String, port: u16, secs: u64, why: Failure)
    ensures
        TunnelEvent::Ready@ is Ready,
        TunnelEvent::Unresolved(text)@ == TunnelEventModel::Unresolved(text@),
        TunnelEvent::Failed(text)@ == TunnelEventModel::Failed(text@),
        TunnelEvent::Connected(text)@ == TunnelEventModel::Connected(text@),
        TunnelEvent::Ended(None)@ == TunnelEventModel::Ended(None),
        TunnelEvent::Ended(Some(text))@ == TunnelEventModel::Ended(Some(text@)),
        (TunnelAction::Dial { host: text, port })@ == (TunnelActionModel::Dial {
            host: text@,
            port,
        }),
        TunnelAction::Sleep(secs)@ == TunnelActionModel::Sleep(secs),
        TunnelAction::Serve@ is Serve,
        TunnelAction::Stop(why)@ == TunnelActionModel::Stop(why@),
{
}

/// What an action on a stream says is what it holds.
pub proof fn law_stream_actions_say_what_they_hold(len: usize, bytes: Vec<u8>, why: Failure)
    ensures
        StreamAction::ReadPrefix@ is ReadPrefix,
        StreamAction::ReadBody(len)@ == StreamActionModel::ReadBody(len as nat),
        StreamAction::Handle(bytes)@ == StreamActionModel::Handle(bytes@),
        StreamAction::Write(bytes)@ == StreamActionModel::Write(bytes@),
        StreamAction::Finish@ is Finish,
        StreamAction::Done@ is Done,
        StreamAction::Fail(why)@ == StreamActionModel::Fail(why@),
{
}

/// A pin file that is hexadecimal stands for the bytes that it writes, and any
/// other for itself.
pub proof fn law_pin_stands_for_its_bytes(pin: Seq<u8>)
    ensures
        hex::hex_decoded(pin) matches Some(bytes) ==> pinned_hash(pin) == bytes,
        hex::hex_decoded(pin) is None ==> pinned_hash(pin) == pin,
{
}

} // verus!
