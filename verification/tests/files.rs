//! Reading, writing and listing.
use membrane_daemon::audit::{Event, OpResult};
use membrane_daemon::config::{Config, PolicyMode};
use membrane_daemon::handlers::list_dir::{FoundEntry, FoundMeta, ListStep};
use membrane_daemon::handlers::read_file::{mtime_unix_ns, FileStat, ReadStep};
use membrane_daemon::handlers::write_file::WriteStep;
use membrane_daemon::handlers::{list_dir, read_file, write_file, IoFailure, IoKind};
use membrane_daemon::pathname::Style;
use membrane_daemon::resolve::{Lookup, Resolution};
use membrane_daemon::wire::{
    DaemonError, DaemonResult, ListDirReq, ListDirResp, ReadFileReq, ReadFileResp, WriteFileReq,
    WriteFileResp,
};

fn here() -> Resolution {
    Resolution::new(Style::Unix)
}

/// A disk on which there are these places, and nothing else.
fn disk(places: &[&str], path: &str, policy: &PolicyMode) -> Resolution {
    let mut resolution = here();
    while let Some(asked) = policy.wanted(path, &resolution) {
        let found = if places.iter().any(|p| p.as_bytes() == asked) {
            Lookup::Real(asked.clone())
        } else {
            Lookup::Nothing
        };
        resolution.add_answer(asked, found);
    }
    resolution
}

fn outside() -> (Config, Resolution) {
    let cfg = Config {
        policy: PolicyMode::Workspace { roots: vec!["/tmp/workspace".into()] },
        ..Config::default()
    };
    let places = ["/", "/tmp", "/tmp/workspace", "/tmp/outside"];
    let resolution = disk(&places, "/tmp/outside", &cfg.policy);
    (cfg, resolution)
}

fn failure(kind: IoKind, message: &str) -> IoFailure {
    IoFailure { kind, message: message.into() }
}

fn read_done(step: ReadStep) -> (Event, DaemonResult<ReadFileResp>) {
    match step {
        ReadStep::Done { event, result } => (event, result),
        _ => panic!("not done"),
    }
}

/// Reads a file of those contents.
fn read(req: &ReadFileReq, cfg: &Config, size: u64, data: &[u8]) -> (Event, DaemonResult<ReadFileResp>) {
    match read_file::handle(req, cfg, &here()) {
        ReadStep::Stat { cap } => {
            let stat = FileStat { size, mtime: Some((7, 5)) };
            match read_file::examined(req, cap, Ok(stat)) {
                ReadStep::Load { mtime_unix_ns } => {
                    read_done(read_file::loaded(req, mtime_unix_ns, Ok(data.to_vec())))
                }
                step => read_done(step),
            }
        }
        step => read_done(step),
    }
}

#[test]
fn read_existing_file() {
    let cfg = Config::default();
    let req = ReadFileReq { path: "/tmp/hello".into(), max_bytes: 1 << 20 };
    let (event, result) = read(&req, &cfg, 11, b"hello world");
    let resp = result.unwrap();
    assert_eq!(resp.data, b"hello world");
    assert_eq!(resp.size_bytes, 11);
    assert_eq!(resp.mtime_unix_ns, 7_000_000_005);
    assert!(matches!(event, Event::Read { bytes: 11, result: OpResult::Success, .. }));
}

#[test]
fn read_refuses_oversized() {
    let cfg = Config::default();
    let req = ReadFileReq { path: "/tmp/big".into(), max_bytes: 100 };
    let (event, result) = read(&req, &cfg, 2000, &[0u8; 2000]);
    match result.unwrap_err() {
        DaemonError::SizeLimitExceeded { requested, max } => {
            assert_eq!(requested, 2000);
            assert_eq!(max, 100);
        }
        _ => panic!("wrong error"),
    }
    match event {
        Event::Read { bytes, result: OpResult::Denied { reason }, .. } => {
            assert_eq!(bytes, 0);
            assert_eq!(reason, "size 2000 > cap 100");
        }
        other => panic!("wrong event: {:?}", other),
    }
}

#[test]
fn read_is_capped_by_the_configuration_too() {
    let cfg = Config { max_read_bytes: 10, ..Config::default() };
    let req = ReadFileReq { path: "/tmp/big".into(), max_bytes: 100 };
    let (_, result) = read(&req, &cfg, 11, &[0u8; 11]);
    assert!(matches!(result, Err(DaemonError::SizeLimitExceeded { requested: 11, max: 10 })));
    let (_, result) = read(&req, &cfg, 10, &[1u8; 10]);
    assert_eq!(result.unwrap().data.len(), 10);
}

#[test]
fn read_refuses_outside_workspace() {
    let (cfg, resolution) = outside();
    let req = ReadFileReq { path: "/tmp/outside".into(), max_bytes: 1 << 20 };
    let (event, result) = read_done(read_file::handle(&req, &cfg, &resolution));
    let err = result.unwrap_err();
    assert!(matches!(err, DaemonError::PathNotAllowed(_)));
    assert!(matches!(event, Event::Read { result: OpResult::Denied { .. }, .. }));
}

#[test]
fn read_missing_file_returns_not_found() {
    let req = ReadFileReq {
        path: "/tmp/definitely-does-not-exist-12345".into(),
        max_bytes: 1 << 20,
    };
    let gone = failure(IoKind::NotFound, "No such file or directory");
    let (event, result) = read_done(read_file::examined(&req, 1 << 20, Err(gone)));
    let err = result.unwrap_err();
    assert!(matches!(err, DaemonError::NotFound(_)));
    match event {
        Event::Read { path, result: OpResult::Error { message }, .. } => {
            assert_eq!(path, "/tmp/definitely-does-not-exist-12345");
            assert_eq!(message, "not found");
        }
        other => panic!("wrong event: {:?}", other),
    }
}

#[test]
fn read_failures_keep_their_kind() {
    let req = ReadFileReq { path: "/p".into(), max_bytes: 1 };
    let denied = failure(IoKind::PermissionDenied, "x");
    let (_, result) = read_done(read_file::examined(&req, 1, Err(denied)));
    assert!(matches!(result, Err(DaemonError::PermissionDenied(p)) if p == "/p"));
    let other = failure(IoKind::Other, "disk on fire");
    let (_, result) = read_done(read_file::examined(&req, 1, Err(other)));
    assert!(matches!(result, Err(DaemonError::Io(m)) if m == "disk on fire"));
    let late = failure(IoKind::NotFound, "gone meanwhile");
    let (_, result) = read_done(read_file::loaded(&req, 0, Err(late)));
    assert!(matches!(result, Err(DaemonError::Io(m)) if m == "gone meanwhile"));
}

#[test]
fn mtimes_are_nanoseconds_in_64_bits() {
    assert_eq!(mtime_unix_ns(None), 0);
    assert_eq!(mtime_unix_ns(Some((1_700_000_000, 123_456_789))), 1_700_000_000_123_456_789);
    assert_eq!(mtime_unix_ns(Some((9_223_372_036, 854_775_807))), i64::MAX);
    assert_eq!(mtime_unix_ns(Some((9_223_372_036, 854_775_808))), i64::MIN);
    assert_eq!(mtime_unix_ns(Some((18_446_744_073, 709_551_615))), -1);
    assert_eq!(mtime_unix_ns(Some((18_446_744_073, 709_551_616))), 0);
}

fn write_done(step: WriteStep) -> (Event, DaemonResult<WriteFileResp>) {
    match step {
        WriteStep::Done { event, result } => (event, result),
        _ => panic!("not done"),
    }
}

/// The bytes that a file's contents are replaced by.
fn stored_bytes(step: WriteStep) -> Vec<u8> {
    match step {
        WriteStep::Store { data } => data,
        _ => panic!("the file is replaced"),
    }
}

fn write_request(path: &str, data: &[u8], if_mtime_matches: Option<i64>) -> WriteFileReq {
    WriteFileReq { path: path.into(), data: data.to_vec(), if_mtime_matches }
}

#[test]
fn write_creates_file() {
    let cfg = Config::default();
    let req = write_request("/tmp/dir/new.md", b"fresh content", None);
    assert_eq!(stored_bytes(write_file::handle(&req, &cfg, &here())), b"fresh content");
    let (event, result) = write_done(write_file::stored(&req, Ok(Some(Some((1, 2))))));
    let resp = result.unwrap();
    assert!(resp.mtime_unix_ns > 0);
    assert_eq!(resp.mtime_unix_ns, 1_000_000_002);
    assert!(matches!(
        event,
        Event::Write { bytes: 13, mtime_check: false, result: OpResult::Success, .. }
    ));
}

#[test]
fn write_blocked_in_readonly() {
    let cfg = Config {
        policy: PolicyMode::ReadOnly { roots: vec!["/tmp/dir".into()] },
        ..Config::default()
    };
    let req = write_request("/tmp/dir/new.md", b"x", None);
    let resolution = disk(&["/", "/tmp", "/tmp/dir"], "/tmp/dir/new.md", &cfg.policy);
    let (_, result) = write_done(write_file::handle(&req, &cfg, &resolution));
    let err = result.unwrap_err();
    assert!(matches!(err, DaemonError::PermissionDenied(_)));
}

#[test]
fn write_refuses_outside_workspace() {
    let (cfg, resolution) = outside();
    let req = write_request("/tmp/outside", b"x", None);
    let (_, result) = write_done(write_file::handle(&req, &cfg, &resolution));
    let err = result.unwrap_err();
    assert!(matches!(err, DaemonError::PathNotAllowed(_)));
}

#[test]
fn mtime_cas_passes_on_match() {
    let cfg = Config::default();
    let found = Some((1_700_000_000, 42));
    let req = write_request("/tmp/f", b"updated", Some(mtime_unix_ns(found)));
    assert!(matches!(write_file::handle(&req, &cfg, &here()), WriteStep::Stat));
    assert_eq!(stored_bytes(write_file::examined(&req, Style::Unix, Some(found))), b"updated");
}

#[test]
fn mtime_cas_fails_on_mismatch() {
    let cfg = Config::default();
    let req = write_request("/tmp/f", b"updated", Some(0));
    assert!(matches!(write_file::handle(&req, &cfg, &here()), WriteStep::Stat));
    let (event, result) = write_done(write_file::examined(&req, Style::Unix, Some(Some((3, 0)))));
    let err = result.unwrap_err();
    assert!(matches!(err, DaemonError::MtimeMismatch { .. }));
    assert!(matches!(err, DaemonError::MtimeMismatch { expected: 0, actual: 3_000_000_000 }));
    match event {
        Event::Write { mtime_check, result: OpResult::Denied { reason }, .. } => {
            assert!(mtime_check);
            assert_eq!(reason, "mtime mismatch: 0 vs 3000000000");
        }
        other => panic!("wrong event: {:?}", other),
    }
}

#[test]
fn mtime_of_a_missing_file_never_matches() {
    let req = write_request("/tmp/f", b"updated", Some(-5));
    let (event, result) = write_done(write_file::examined(&req, Style::Unix, None));
    assert!(matches!(result, Err(DaemonError::MtimeMismatch { expected: -5, actual: 0 })));
    match event {
        Event::Write { result: OpResult::Denied { reason }, .. } => {
            assert_eq!(reason, "expected mtime -5 but file doesn't exist");
        }
        other => panic!("wrong event: {:?}", other),
    }
}

#[test]
fn answered_mtime_passes_the_next_check() {
    let cfg = Config::default();
    let left = Some((1_700_000_000, 7));
    let first = write_request("/tmp/f", b"one", None);
    let (_, result) = write_done(write_file::stored(&first, Ok(Some(left))));
    let next = write_request("/tmp/f", b"two", Some(result.unwrap().mtime_unix_ns));
    assert!(matches!(write_file::handle(&next, &cfg, &here()), WriteStep::Stat));
    assert!(matches!(write_file::examined(&next, Style::Unix, Some(left)), WriteStep::Store { .. }));
}

#[test]
fn read_mtime_passes_the_check_of_a_write() {
    let cfg = Config::default();
    let read_req = ReadFileReq { path: "/tmp/f".into(), max_bytes: 10 };
    let (_, result) = read(&read_req, &cfg, 2, b"ab");
    let req = write_request("/tmp/f", b"cd", Some(result.unwrap().mtime_unix_ns));
    assert!(matches!(write_file::examined(&req, Style::Unix, Some(Some((7, 5)))), WriteStep::Store { .. }));
}

#[test]
fn a_path_without_a_parent_cannot_be_written() {
    let cfg = Config::default();
    for path in ["/", ""] {
        let req = write_request(path, b"x", None);
        let (_, result) = write_done(write_file::handle(&req, &cfg, &here()));
        assert!(matches!(result, Err(DaemonError::Io(m)) if m == "no parent directory"));
    }
    let req = write_request("name", b"x", None);
    assert!(matches!(write_file::handle(&req, &cfg, &here()), WriteStep::Store { .. }));
}

#[test]
fn write_failures_keep_their_kind() {
    let req = write_request("/p", b"x", None);
    let (_, result) = write_done(write_file::stored(&req, Err(failure(IoKind::NotFound, "m"))));
    assert!(matches!(result, Err(DaemonError::NotFound(p)) if p == "/p"));
    let (_, result) =
        write_done(write_file::stored(&req, Err(failure(IoKind::PermissionDenied, "m"))));
    assert!(matches!(result, Err(DaemonError::PermissionDenied(p)) if p == "/p"));
    let (event, result) = write_done(write_file::stored(&req, Err(failure(IoKind::Other, "m"))));
    assert!(matches!(result, Err(DaemonError::Io(m)) if m == "m"));
    assert!(matches!(event, Event::Write { result: OpResult::Error { message }, .. } if message == "m"));
    let (_, result) = write_done(write_file::stored(&req, Ok(None)));
    assert_eq!(result.unwrap().mtime_unix_ns, 0);
}

fn list_done(step: ListStep) -> (Event, DaemonResult<ListDirResp>) {
    match step {
        ListStep::Done { event, result } => (event, result),
        _ => panic!("not done"),
    }
}

fn entry(name: &str, is_dir: bool, len: u64) -> FoundEntry {
    FoundEntry { name: Some(name.into()), meta: Some(FoundMeta { is_dir, len }) }
}

#[test]
fn list_existing_dir() {
    let cfg = Config::default();
    let req = ListDirReq { path: "/tmp/dir".into() };
    assert!(matches!(list_dir::handle(&req, &cfg, &here()), ListStep::ReadDir));
    let found = vec![
        entry("sub", true, 4096),
        entry("b.md", false, 2),
        entry(".hidden", false, 1),
        entry("a.md", false, 1),
    ];
    let (event, result) = list_done(list_dir::listed(&req, Ok(found)));
    let resp = result.unwrap();
    assert_eq!(resp.entries.len(), 3);
    assert_eq!(resp.entries[0].name, "a.md");
    assert!(!resp.entries[0].is_dir);
    assert_eq!(resp.entries[0].size_bytes, 1);
    assert_eq!(resp.entries[1].name, "b.md");
    assert_eq!(resp.entries[1].size_bytes, 2);
    assert_eq!(resp.entries[2].name, "sub");
    assert!(resp.entries[2].is_dir);
    assert_eq!(resp.entries[2].size_bytes, 0);
    assert!(matches!(event, Event::List { entries: 3, result: OpResult::Success, .. }));
}

#[test]
fn list_missing_returns_not_found() {
    let req = ListDirReq { path: "/tmp/no-such-dir-xyz".into() };
    let gone = failure(IoKind::NotFound, "No such file or directory");
    let (_, result) = list_done(list_dir::listed(&req, Err(gone)));
    let err = result.unwrap_err();
    assert!(matches!(err, DaemonError::NotFound(_)));
}

#[test]
fn list_refuses_outside_workspace() {
    let (cfg, resolution) = outside();
    let req = ListDirReq { path: "/tmp/outside".into() };
    let (_, result) = list_done(list_dir::handle(&req, &cfg, &resolution));
    let err = result.unwrap_err();
    assert!(matches!(err, DaemonError::PathNotAllowed(_)));
}

#[test]
fn listing_skips_what_cannot_be_examined_or_named() {
    let req = ListDirReq { path: "/d".into() };
    let found = vec![
        FoundEntry { name: None, meta: Some(FoundMeta { is_dir: false, len: 1 }) },
        FoundEntry { name: Some("broken".into()), meta: None },
        entry("kept", false, 3),
    ];
    let (_, result) = list_done(list_dir::listed(&req, Ok(found)));
    let names: Vec<String> = result.unwrap().entries.into_iter().map(|e| e.name).collect();
    assert_eq!(names, vec!["kept"]);
}

#[test]
fn listing_sorts_as_strings_do() {
    let req = ListDirReq { path: "/d".into() };
    let mut names: Vec<String> = Vec::new();
    for i in 0..40u32 {
        names.push(format!("{}{}", (b'a' + (i * 7 % 26) as u8) as char, i * 31 % 17));
    }
    names.push("é".into());
    names.push("Z".into());
    names.push("zz".into());
    names.push("z".into());
    let found = names.iter().map(|n| entry(n, false, 0)).collect();
    let (_, result) = list_done(list_dir::listed(&req, Ok(found)));
    let got: Vec<String> = result.unwrap().entries.into_iter().map(|e| e.name).collect();
    names.sort();
    assert_eq!(got, names);
}

#[test]
fn empty_directory_lists_nothing() {
    let req = ListDirReq { path: "/d".into() };
    let (event, result) = list_done(list_dir::listed(&req, Ok(vec![])));
    assert!(result.unwrap().entries.is_empty());
    assert!(matches!(event, Event::List { entries: 0, result: OpResult::Success, .. }));
}

#[test]
fn write_overwrites_existing() {
    let cfg = Config::default();
    let req = write_request("/tmp/f", b"new", None);
    assert_eq!(stored_bytes(write_file::handle(&req, &cfg, &here())), b"new");
    let (event, result) = write_done(write_file::stored(&req, Ok(Some(Some((1, 0))))));
    result.unwrap();
    assert!(matches!(event, Event::Write { bytes: 3, result: OpResult::Success, .. }));
}
