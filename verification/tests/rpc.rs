//! The RPC loop, driven over plain bytes.
use membrane_daemon::config::{Config, PolicyMode};
use membrane_daemon::handlers::exec::{finished, Capture, ExecStep, Outcome};
use membrane_daemon::handlers::list_dir::{listed, FoundEntry, FoundMeta, ListStep};
use membrane_daemon::handlers::read_file::{examined, loaded, FileStat, ReadStep};
use membrane_daemon::handlers::write_file::{stored, WriteStep};
use membrane_daemon::handlers::{dispatch, finish, path_of, Progress, Step};
use membrane_daemon::pathname::Style;
use membrane_daemon::resolve::Resolution;
use membrane_daemon::rpc::{io_err, serve, ServeAction, ServeError, ServeErrorKind, ServeEvent, Session};
use membrane_daemon::wire::{
    decode, encode, ExecReq, ListDirReq, ReadFileReq, Request, Response, WriteFileReq,
};

/// Drives the loop over `input` in chunks; a request is one byte, its answer is
/// the byte that `answer` gives.
fn drive(
    input: &[u8],
    chunk: usize,
    answer: impl Fn(&[u8]) -> Result<Vec<u8>, ServeEvent>,
) -> Result<Vec<u8>, ServeError> {
    let mut session = Session::new();
    let mut output: Vec<u8> = Vec::new();
    let mut at = 0;
    let mut event = ServeEvent::Ready;
    loop {
        event = match serve(&mut session, event) {
            ServeAction::Handle(body) => match answer(&body) {
                Ok(reply) => {
                    output.extend_from_slice(&encode(&reply));
                    ServeEvent::Ready
                }
                Err(event) => event,
            },
            ServeAction::Read => {
                let end = input.len().min(at + chunk);
                let part = input[at..end].to_vec();
                at = end;
                ServeEvent::Read(part)
            }
            ServeAction::Finish => return Ok(output),
            ServeAction::Fail(e) => return Err(e),
        };
    }
}

fn ping() -> Vec<u8> {
    bincode::serialize(&4u32).unwrap()
}

fn pong(body: &[u8]) -> Result<Vec<u8>, ServeEvent> {
    match bincode::deserialize::<u32>(body) {
        Ok(4) => {
            let cfg = Config::default();
            match finish(dispatch(&Request::Ping, &cfg, &nowhere())) {
                Progress::Answered { event: None, response: Response::Pong } => Ok(ping()),
                _ => panic!("a ping is answered at once"),
            }
        }
        Ok(tag) => Err(ServeEvent::Rejected(format!("invalid tag {tag}"))),
        Err(e) => Err(ServeEvent::Rejected(e.to_string())),
    }
}

#[test]
fn ping_dispatches() {
    let output = drive(&encode(&ping()), 4096, pong).unwrap();
    let (reply, n) = decode(&output).unwrap();
    assert_eq!(reply, ping());
    assert_eq!(n, output.len());
}

#[test]
fn multiple_requests_in_one_stream() {
    let mut input: Vec<u8> = Vec::new();
    input.extend_from_slice(&encode(&ping()));
    input.extend_from_slice(&encode(&ping()));
    input.extend_from_slice(&encode(&ping()));
    for chunk in [1, 3, 8, 4096] {
        let output = drive(&input, chunk, pong).unwrap();
        let mut cursor = 0;
        for _ in 0..3 {
            let (reply, n) = decode(&output[cursor..]).unwrap();
            assert_eq!(reply, ping());
            cursor += n;
        }
        assert_eq!(cursor, output.len());
    }
}

#[test]
fn partial_frame_then_eof_is_error() {
    let prefix = [10u8, 0, 0, 0];
    let err = drive(&prefix, 4096, pong).unwrap_err();
    assert_eq!(err.kind, ServeErrorKind::UnexpectedEof);
    assert_eq!(err.message, "stream ended mid-frame");
}

#[test]
fn corrupt_frame_is_error() {
    let body = [0xFFu8; 5];
    let mut frame = (body.len() as u32).to_le_bytes().to_vec();
    frame.extend_from_slice(&body);
    let err = drive(&frame, 4096, pong).unwrap_err();
    assert_eq!(err.kind, ServeErrorKind::InvalidData);
    assert!(err.message.starts_with("frame decode error: "));
}

#[test]
fn empty_stream_ends_cleanly() {
    assert!(drive(b"", 4096, pong).unwrap().is_empty());
}

#[test]
fn frames_before_a_broken_one_are_answered() {
    let mut input = encode(&ping());
    input.extend_from_slice(&[9, 0]);
    let mut session = Session::new();
    assert!(matches!(serve(&mut session, ServeEvent::Ready), ServeAction::Read));
    match serve(&mut session, ServeEvent::Read(input)) {
        ServeAction::Handle(body) => assert_eq!(body, ping()),
        _ => panic!("the first frame is whole"),
    }
    assert!(matches!(serve(&mut session, ServeEvent::Ready), ServeAction::Read));
    assert_eq!(session.buf, vec![9, 0]);
    match serve(&mut session, ServeEvent::Read(vec![])) {
        ServeAction::Fail(e) => assert_eq!(e.kind, ServeErrorKind::UnexpectedEof),
        _ => panic!("half a frame is left"),
    }
}

#[test]
fn unencodable_response_is_error() {
    let fail = |_: &[u8]| Err(ServeEvent::Unencodable("too big".to_string()));
    let err = drive(&encode(&ping()), 10, fail).unwrap_err();
    assert_eq!(err.kind, ServeErrorKind::Other);
    assert_eq!(err.message, "too big");
    assert_eq!(io_err("x".into()).kind, ServeErrorKind::Other);
}

fn nowhere() -> Resolution {
    Resolution::new(Style::Unix)
}

#[test]
fn read_file_dispatches() {
    let cfg = Config::default();
    let r = ReadFileReq { path: "/tmp/x".into(), max_bytes: 1 << 20 };
    let req = Request::ReadFile(r.clone());
    assert_eq!(path_of(&req), Some("/tmp/x"));
    let step = match finish(dispatch(&req, &cfg, &nowhere())) {
        Progress::Pending(Step::Read(ReadStep::Stat { cap })) => {
            examined(&r, cap, Ok(FileStat { size: 11, mtime: None }))
        }
        _ => panic!("the file is examined first"),
    };
    let step = match step {
        ReadStep::Load { mtime_unix_ns } => loaded(&r, mtime_unix_ns, Ok(b"hello stdio".to_vec())),
        _ => panic!("then it is read"),
    };
    match finish(Step::Read(step)) {
        Progress::Answered { event, response: Response::ReadFile(Ok(r)) } => {
            assert!(event.is_some());
            assert_eq!(r.data, b"hello stdio");
        }
        _ => panic!("unexpected"),
    }
}

#[test]
fn write_file_dispatches() {
    let cfg = Config::default();
    let w = WriteFileReq {
        path: "/tmp/out.md".into(),
        data: b"written via rpc loop".to_vec(),
        if_mtime_matches: None,
    };
    let req = Request::WriteFile(w.clone());
    assert_eq!(path_of(&req), Some("/tmp/out.md"));
    assert!(matches!(dispatch(&req, &cfg, &nowhere()), Step::Write(WriteStep::Store { data }) if data == w.data));
    let step = Step::Write(stored(&w, Ok(Some(Some((1, 0))))));
    assert!(matches!(
        finish(step),
        Progress::Answered { event: Some(_), response: Response::WriteFile(Ok(_)) }
    ));
}

#[test]
fn list_dir_dispatches() {
    let cfg = Config::default();
    let l = ListDirReq { path: "/tmp".into() };
    let req = Request::ListDir(l.clone());
    assert_eq!(path_of(&req), Some("/tmp"));
    assert!(matches!(dispatch(&req, &cfg, &nowhere()), Step::List(ListStep::ReadDir)));
    let found = FoundEntry {
        name: Some("a.md".into()),
        meta: Some(FoundMeta { is_dir: false, len: 1 }),
    };
    match finish(Step::List(listed(&l, Ok(vec![found])))) {
        Progress::Answered { response: Response::ListDir(Ok(r)), .. } => {
            assert_eq!(r.entries.len(), 1);
            assert_eq!(r.entries[0].name, "a.md");
        }
        _ => panic!("unexpected"),
    }
}

#[test]
fn exec_dispatches() {
    let cfg = Config::default();
    let e = ExecReq { command: "echo via-rpc".into(), timeout_ms: 5_000, max_output_bytes: 1024 };
    let req = Request::Exec(e.clone());
    assert_eq!(path_of(&req), None);
    let plan = match dispatch(&req, &cfg, &nowhere()) {
        Step::Exec(ExecStep::Spawn(plan)) => plan,
        _ => panic!("the command is run"),
    };
    let mut stdout = Capture::new(plan.max_output);
    stdout.read_capped(b"via-rpc\n");
    let step = finished(&e, Outcome::Exited(Some(0)), stdout, Capture::new(plan.max_output), 2);
    match finish(Step::Exec(step)) {
        Progress::Answered { response: Response::Exec(Ok(r)), .. } => {
            assert!(String::from_utf8_lossy(&r.stdout).contains("via-rpc"));
            assert_eq!(r.exit_code, Some(0));
        }
        _ => panic!("unexpected"),
    }
}

#[test]
fn nothing_is_done_for_a_request_that_policy_refuses() {
    let cfg = Config {
        policy: PolicyMode::ReadOnly { roots: vec!["/ws".into()] },
        ..Config::default()
    };
    let path = || "/etc/passwd".to_string();
    let refused = vec![
        Request::ReadFile(ReadFileReq { path: path(), max_bytes: 1 }),
        Request::ListDir(ListDirReq { path: path() }),
        Request::WriteFile(WriteFileReq {
            path: "/ws/a".into(),
            data: vec![],
            if_mtime_matches: Some(1),
        }),
        Request::Exec(ExecReq { command: "ls".into(), timeout_ms: 0, max_output_bytes: 0 }),
    ];
    for req in refused {
        match finish(dispatch(&req, &cfg, &nowhere())) {
            Progress::Answered { event, response } => {
                assert!(event.is_some());
                assert!(matches!(
                    response,
                    Response::ReadFile(Err(_))
                        | Response::ListDir(Err(_))
                        | Response::WriteFile(Err(_))
                        | Response::Exec(Err(_))
                ));
            }
            Progress::Pending(_) => panic!("refused requests end at once"),
        }
    }
}
