//! The RPC loop: frames come in, each is answered before the next one is
//! looked at, and the loop ends when the stream does.
//!
//! The loop is driven from outside: [`serve`] takes what just happened and
//! says what to do next. Whoever drives it reads, parses and writes.
use vstd::prelude::*;

use crate::text;
use crate::wire;

verus! {

/// The loop's state: the bytes that were read and not yet taken as a frame.
pub struct Session {
    pub buf: Vec<u8>,
}

/// What happened.
pub enum ServeEvent {
    /// The loop begins, or the last frame was answered.
    Ready,
    /// The input gave these bytes; none of them at its end.
    Read(Vec<u8>),
    /// The frame's body is no request, for this reason.
    Rejected(String),
    /// The response could not be encoded, for this reason.
    Unencodable(String),
}

/// What to do next.
pub enum ServeAction {
    /// Parse this body, answer the request, write the framed response.
    Handle(Vec<u8>),
    /// Read more input.
    Read,
    /// Stop: the stream ended between frames.
    Finish,
    /// Stop with this error.
    Fail(ServeError),
}

/// The kinds of error that end the loop.
#[derive(Debug, Clone, Copy, PartialEq, Eq, Structural)]
pub enum ServeErrorKind {
    UnexpectedEof,
    InvalidData,
    Other,
}

/// An error that ends the loop.
#[derive(Debug)]
pub struct ServeError {
    pub kind: ServeErrorKind,
    pub message: String,
}

/// What a [`ServeEvent`] says.
#[verifier::ext_equal]
pub enum ServeEventModel {
    Ready,
    Read(Seq<u8>),
    Rejected(Seq<char>),
    Unencodable(Seq<char>),
}

/// What a [`ServeAction`] says.
#[verifier::ext_equal]
pub enum ServeActionModel {
    Handle(Seq<u8>),
    Read,
    Finish,
    Fail(ServeErrorKind, Seq<char>),
}

impl View for ServeEvent {
    type V = ServeEventModel;

    open spec fn view(&self) -> ServeEventModel {
        match self {
            ServeEvent::Ready => ServeEventModel::Ready,
            ServeEvent::Read(chunk) => ServeEventModel::Read(chunk@),
            ServeEvent::Rejected(msg) => ServeEventModel::Rejected(msg@),
            ServeEvent::Unencodable(msg) => ServeEventModel::Unencodable(msg@),
        }
    }
}

impl View for ServeAction {
    type V = ServeActionModel;

    open spec fn view(&self) -> ServeActionModel {
        match self {
            ServeAction::Handle(body) => ServeActionModel::Handle(body@),
            ServeAction::Read => ServeActionModel::Read,
            ServeAction::Finish => ServeActionModel::Finish,
            ServeAction::Fail(e) => ServeActionModel::Fail(e.kind, e.message@),
        }
    }
}

/// Takes the first frame off `buf`, or asks for more input.
pub open spec fn advanced(buf: Seq<u8>) -> (Seq<u8>, ServeActionModel) {
    match wire::first_frame(buf) {
        wire::FrameModel::Whole { body, consumed } => (
            buf.skip(consumed as int),
            ServeActionModel::Handle(body),
        ),
        wire::FrameModel::NeedMore(_) => (buf, ServeActionModel::Read),
    }
}

/// What an event does to the buffer, and what is to be done next.
pub open spec fn step(buf: Seq<u8>, event: ServeEventModel) -> (Seq<u8>, ServeActionModel) {
    match event {
        ServeEventModel::Ready => advanced(buf),
        ServeEventModel::Read(chunk) => if chunk.len() > 0 {
            advanced(buf + chunk)
        } else if buf.len() == 0 {
            (buf, ServeActionModel::Finish)
        } else {
            (
                buf,
                ServeActionModel::Fail(
                    ServeErrorKind::UnexpectedEof,
                    "stream ended mid-frame"@,
                ),
            )
        },
        ServeEventModel::Rejected(msg) => (
            buf,
            ServeActionModel::Fail(ServeErrorKind::InvalidData, "frame decode error: "@ + msg),
        ),
        ServeEventModel::Unencodable(msg) => (
            buf,
            ServeActionModel::Fail(ServeErrorKind::Other, msg),
        ),
    }
}

impl Session {
    /// A session that has read nothing yet.
    pub fn new() -> (res: Session)
        ensures
            res.buf@ == Seq::<u8>::empty(),
    {
        Session { buf: Vec::new() }
    }

    fn advance(&mut self) -> (res: ServeAction)
        ensures
            (final(self).buf@, res@) == advanced(old(self).buf@),
    {
        match wire::decode(self.buf.as_slice()) {
            Ok((body, consumed)) => {
                let rest = self.buf.split_off(consumed);
                proof {
                    assert(rest@ =~= old(self).buf@.skip(consumed as int));
                }
                self.buf = rest;
                ServeAction::Handle(body)
            },
            Err(_) => ServeAction::Read,
        }
    }
}

/// An error of no particular kind.
pub fn io_err(message: String) -> (res: ServeError)
    ensures
        res.kind == ServeErrorKind::Other,
        res.message@ == message@,
{
    ServeError { kind: ServeErrorKind::Other, message }
}

/// One step of the loop.
pub fn serve(session: &mut Session, event: ServeEvent) -> (res: ServeAction)
    ensures
        (final(session).buf@, res@) == step(old(session).buf@, event@),
{
    match event {
        ServeEvent::Ready => session.advance(),
        ServeEvent::Read(chunk) => {
            if chunk.len() > 0 {
                session.buf.extend_from_slice(chunk.as_slice());
                proof {
                    assert(session.buf@ =~= old(session).buf@ + chunk@);
                }
                session.advance()
            } else if session.buf.len() == 0 {
                ServeAction::Finish
            } else {
                ServeAction::Fail(
                    ServeError {
                        kind: ServeErrorKind::UnexpectedEof,
                        message: "stream ended mid-frame".to_string(),
                    },
                )
            }
        },
        ServeEvent::Rejected(msg) => {
            ServeAction::Fail(
                ServeError {
                    kind: ServeErrorKind::InvalidData,
                    message: text::text2("frame decode error: ", msg.as_str()),
                },
            )
        },
        ServeEvent::Unencodable(msg) => ServeAction::Fail(io_err(msg)),
    }
}

// ── What the loop does over a whole stream ──────────────────────────

/// The bodies of the frames in `bytes`, and what is left behind the last one.
pub open spec fn split_frames(bytes: Seq<u8>) -> (Seq<Seq<u8>>, Seq<u8>)
    decreases bytes.len(),
{
    match wire::first_frame(bytes) {
        wire::FrameModel::Whole { body, consumed } => {
            let rest = split_frames(bytes.skip(consumed as int));
            (seq![body] + rest.0, rest.1)
        },
        wire::FrameModel::NeedMore(_) => (Seq::empty(), bytes),
    }
}

/// The chunks, one after the other.
pub open spec fn flattened(chunks: Seq<Seq<u8>>) -> Seq<u8>
    decreases chunks.len(),
{
    if chunks.len() == 0 {
        Seq::empty()
    } else {
        chunks[0] + flattened(chunks.skip(1))
    }
}

/// The frames of some bodies, one after the other.
pub open spec fn framed(bodies: Seq<Seq<u8>>) -> Seq<u8>
    decreases bodies.len(),
{
    if bodies.len() == 0 {
        Seq::empty()
    } else {
        wire::frame(bodies[0]) + framed(bodies.skip(1))
    }
}

/// The bodies that the loop hands out, every one of them answered, when it
/// goes on from `buf` with `event` and then reads `chunks`; and what it has
/// buffered when it wants more input than that.
pub open spec fn run(buf: Seq<u8>, event: ServeEventModel, chunks: Seq<Seq<u8>>) -> (
    Seq<Seq<u8>>,
    Seq<u8>,
)
    decreases
            chunks.len(),
            if event is Read {
                1nat
            } else {
                0nat
            },
            buf.len(),
{
    let (next, action) = step(buf, event);
    match action {
        ServeActionModel::Handle(body) => {
            let rest = run(next, ServeEventModel::Ready, chunks);
            (seq![body] + rest.0, rest.1)
        },
        ServeActionModel::Read => if chunks.len() > 0 {
            run(next, ServeEventModel::Read(chunks[0]), chunks.skip(1))
        } else {
            (Seq::empty(), next)
        },
        _ => (Seq::empty(), next),
    }
}

/// Frames in what was read so far do not depend on what comes later.
proof fn lemma_split_append(a: Seq<u8>, b: Seq<u8>)
    ensures
        split_frames(a + b).0 == split_frames(a).0 + split_frames(split_frames(a).1 + b).0,
        split_frames(a + b).1 == split_frames(split_frames(a).1 + b).1,
    decreases a.len(),
{
    match wire::first_frame(a) {
        wire::FrameModel::Whole { body, consumed } => {
            wire::law_whole_frame_is_stable(a, b);
            assert((a + b).skip(consumed as int) =~= a.skip(consumed as int) + b);
            lemma_split_append(a.skip(consumed as int), b);
            let x = split_frames(a.skip(consumed as int));
            let y = split_frames(x.1 + b);
            assert(seq![body] + (x.0 + y.0) =~= (seq![body] + x.0) + y.0);
        },
        wire::FrameModel::NeedMore(_) => {
            assert(split_frames(a).0 + split_frames(a + b).0 =~= split_frames(a + b).0);
        },
    }
}

proof fn lemma_run_from_ready(buf: Seq<u8>, chunks: Seq<Seq<u8>>)
    requires
        forall|i: int| 0 <= i < chunks.len() ==> (#[trigger] chunks[i]).len() > 0,
    ensures
        run(buf, ServeEventModel::Ready, chunks) == split_frames(buf + flattened(chunks)),
    decreases chunks.len(), buf.len(),
{
    match wire::first_frame(buf) {
        wire::FrameModel::Whole { body, consumed } => {
            let next = buf.skip(consumed as int);
            lemma_run_from_ready(next, chunks);
            wire::law_whole_frame_is_stable(buf, flattened(chunks));
            assert((buf + flattened(chunks)).skip(consumed as int) =~= next + flattened(chunks));
        },
        wire::FrameModel::NeedMore(_) => {
            if chunks.len() > 0 {
                // Reading a chunk is like going on with the chunk in the buffer.
                let more = chunks.skip(1);
                assert(chunks[0].len() > 0);
                assert forall|i: int| 0 <= i < more.len() implies (#[trigger] more[i]).len()
                    > 0 by {
                    assert(chunks[i + 1].len() > 0);
                }
                let grown = buf + chunks[0];
                assert(run(buf, ServeEventModel::Read(chunks[0]), more) == run(
                    grown,
                    ServeEventModel::Ready,
                    more,
                )) by {
                    assert(step(buf, ServeEventModel::Read(chunks[0])) == step(
                        grown,
                        ServeEventModel::Ready,
                    ));
                    reveal_with_fuel(run, 2);
                }
                lemma_run_from_ready(grown, more);
                assert(grown + flattened(more) =~= buf + flattened(chunks));
            } else {
                assert(buf + flattened(chunks) =~= buf);
            }
        },
    }
}

/// The loop answers exactly the frames of the stream, in order, however the
/// input cuts the stream into pieces; and what it has buffered at the end of
/// the input is what follows the last whole frame, so that the end is clean
/// exactly when nothing follows it.
pub proof fn law_serves_the_stream(chunks: Seq<Seq<u8>>)
    requires
        forall|i: int| 0 <= i < chunks.len() ==> (#[trigger] chunks[i]).len() > 0,
    ensures
        run(Seq::empty(), ServeEventModel::Ready, chunks) == split_frames(flattened(chunks)),
        ({
            let left = split_frames(flattened(chunks)).1;
            let end = step(left, ServeEventModel::Read(Seq::empty())).1;
            &&& left.len() == 0 <==> end is Finish
            &&& left.len() > 0 ==> end == ServeActionModel::Fail(
                ServeErrorKind::UnexpectedEof,
                "stream ended mid-frame"@,
            )
        }),
{
    lemma_run_from_ready(Seq::empty(), chunks);
    assert(Seq::<u8>::empty() + flattened(chunks) =~= flattened(chunks));
}

/// A stream of framed bodies is split into exactly those bodies, with nothing
/// left over.
pub proof fn law_frames_come_back(bodies: Seq<Seq<u8>>)
    requires
        forall|i: int| 0 <= i < bodies.len() ==> (#[trigger] bodies[i]).len() < 0x1_0000_0000,
    ensures
        split_frames(framed(bodies)) == (bodies, Seq::<u8>::empty()),
    decreases bodies.len(),
{
    if bodies.len() > 0 {
        let more = bodies.skip(1);
        assert(bodies[0].len() < 0x1_0000_0000);
        assert forall|i: int| 0 <= i < more.len() implies (#[trigger] more[i]).len()
            < 0x1_0000_0000 by {
            assert(bodies[i + 1].len() < 0x1_0000_0000);
        }
        law_frames_come_back(more);
        wire::law_decode_encode(bodies[0], framed(more));
        let whole = framed(bodies);
        let consumed = wire::frame(bodies[0]).len();
        assert(whole.skip(consumed as int) =~= framed(more));
        assert(seq![bodies[0]] + more =~= bodies);
    } else {
        assert(bodies =~= Seq::<Seq<u8>>::empty());
    }
}

/// What is read later changes nothing of the frames read before: the frames of
/// a longer stream are those of its beginning and then those of the rest.
pub proof fn law_frames_are_final(read: Seq<u8>, later: Seq<u8>)
    ensures
        split_frames(read).0.is_prefix_of(split_frames(read + later).0),
{
    lemma_split_append(read, later);
    let a = split_frames(read).0;
    let whole = split_frames(read + later).0;
    assert(a =~= whole.take(a.len() as int));
}

/// A session that cannot go on says why: because a frame holds no request, or
/// because an answer could not be encoded. It keeps what it has read.
pub proof fn law_broken_frames_end_the_loop(buf: Seq<u8>, why: Seq<char>)
    ensures
        step(buf, ServeEventModel::Rejected(why)) == (
            buf,
            ServeActionModel::Fail(ServeErrorKind::InvalidData, "frame decode error: "@ + why),
        ),
        step(buf, ServeEventModel::Unencodable(why)) == (
            buf,
            ServeActionModel::Fail(ServeErrorKind::Other, why),
        ),
{
}

/// A request is handed out as soon as it is there: whatever is buffered, a frame
/// that is whole is the next thing to handle, and what follows it stays; without
/// one, more is read and nothing is lost.
pub proof fn law_whole_frames_are_handled(body: Seq<u8>, rest: Seq<u8>, buf: Seq<u8>, chunk: Seq<u8>)
    requires
        body.len() < 0x1_0000_0000,
        chunk.len() > 0,
        buf + chunk == wire::frame(body) + rest,
    ensures
        step(wire::frame(body) + rest, ServeEventModel::Ready) == (
            rest,
            ServeActionModel::Handle(body),
        ),
        step(buf, ServeEventModel::Read(chunk)) == (rest, ServeActionModel::Handle(body)),
{
    wire::law_decode_encode(body, rest);
    let whole = wire::frame(body) + rest;
    assert(whole.skip(wire::frame(body).len() as int) =~= rest);
}

/// Half a frame is kept until the rest of it comes.
pub proof fn law_half_frames_are_kept(body: Seq<u8>, have: int, buf: Seq<u8>, chunk: Seq<u8>)
    requires
        body.len() < 0x1_0000_0000,
        0 <= have < wire::frame(body).len(),
        chunk.len() > 0,
        buf + chunk == wire::frame(body).take(have),
    ensures
        step(wire::frame(body).take(have), ServeEventModel::Ready) == (
            wire::frame(body).take(have),
            ServeActionModel::Read,
        ),
        step(buf, ServeEventModel::Read(chunk)) == (
            wire::frame(body).take(have),
            ServeActionModel::Read,
        ),
{
    wire::law_cut_frame_needs_more(body, have);
}

/// What an event and an action say is what they hold.
pub proof fn law_actions_say_what_they_hold(bytes: Vec<u8>, text: String, e: ServeError)
    ensures
        ServeEvent::Ready@ is Ready,
        ServeEvent::Read(bytes)@ == ServeEventModel::Read(bytes@),
        ServeEvent::Rejected(text)@ == ServeEventModel::Rejected(text@),
        ServeEvent::Unencodable(text)@ == ServeEventModel::Unencodable(text@),
        ServeAction::Handle(bytes)@ == ServeActionModel::Handle(bytes@),
        ServeAction::Read@ is Read,
        ServeAction::Finish@ is Finish,
        ServeAction::Fail(e)@ == ServeActionModel::Fail(e.kind, e.message@),
{
}

} // verus!
