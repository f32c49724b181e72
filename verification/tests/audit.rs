//! The audit log.
use membrane_daemon::audit::{
    lifecycle, log_line, log_order, parse_since, select, since_moment, Audit, Entry, Event, OpResult, Timestamp,
};
use membrane_daemon::lines::lines;

fn at(secs: i64) -> Timestamp {
    Timestamp { secs, nanos: 0 }
}

fn entry(secs: i64, name: &str) -> Entry {
    Audit::new("ReadOnly").entry(lifecycle(name, ""), at(secs))
}

fn names(entries: &[Entry]) -> Vec<String> {
    entries
        .iter()
        .map(|e| match &e.event {
            Event::Lifecycle { event, .. } => event.clone(),
            other => panic!("wrong variant: {:?}", other),
        })
        .collect()
}

#[test]
fn events_go_to_the_log_of_their_utc_day() {
    let audit = Audit::new("Unrestricted");
    let now = Timestamp { secs: 1_779_481_113, nanos: 123_000_000 };
    let record = audit.write(lifecycle("startup", "test boot"), now).unwrap();
    assert_eq!(record.day, "2026-05-22");
    assert_eq!(record.entry.mode, "Unrestricted");
    assert_eq!(record.entry.ts, now);
    assert!(matches!(record.entry.event, Event::Lifecycle { .. }));
    assert_eq!(audit.write(lifecycle("a", ""), at(0)).unwrap().day, "1970-01-01");
    assert_eq!(audit.write(lifecycle("a", ""), at(-1)).unwrap().day, "1969-12-31");
    assert!(audit.write(lifecycle("a", ""), at(i64::MAX)).is_none());
}

#[test]
fn each_entry_is_a_line() {
    let mut log = String::new();
    log.push_str(&log_line("{\"op\":\"read\"}"));
    assert_eq!(log, "{\"op\":\"read\"}\n");
    log.push_str(&log_line("{\"op\":\"list\"}"));
    assert_eq!(lines(&log), ["{\"op\":\"read\"}", "{\"op\":\"list\"}"]);
}

#[test]
fn logs_are_read_day_by_day() {
    let names: Vec<Vec<u8>> = ["2026-05-22.jsonl", "2025-12-31.jsonl", "2026-05-03.jsonl"]
        .iter()
        .map(|n| n.as_bytes().to_vec())
        .collect();
    assert_eq!(log_order(&names), [1, 2, 0]);
}

#[test]
fn denied_exec_keeps_its_reason() {
    let audit = Audit::new("WorkspaceAllowlistExec");
    let event = Event::Exec {
        cmd: "curl evil.com".into(),
        exit_code: None,
        duration_ms: 0,
        timed_out: false,
        output_truncated: false,
        result: OpResult::Denied { reason: "not in allowlist".into() },
    };
    let record = audit.write(event, at(0)).unwrap();
    match record.entry.event {
        Event::Exec { cmd, result: OpResult::Denied { reason }, .. } => {
            assert_eq!(cmd, "curl evil.com");
            assert_eq!(reason, "not in allowlist");
        }
        other => panic!("wrong variant: {:?}", other),
    }
}

#[test]
fn moments_are_ordered_by_seconds_then_nanoseconds() {
    let a = Timestamp { secs: 5, nanos: 9 };
    assert!(Timestamp { secs: 4, nanos: 999 }.is_before(&a));
    assert!(Timestamp { secs: 5, nanos: 8 }.is_before(&a));
    assert!(!a.is_before(&a));
    assert!(!Timestamp { secs: 6, nanos: 0 }.is_before(&a));
}

#[test]
fn the_latest_entries_since_a_moment_are_shown() {
    let all = || vec![entry(1, "a"), entry(5, "b"), entry(3, "c"), entry(9, "d")];
    let s = select(all(), at(3), 10);
    assert_eq!(names(&s.shown), vec!["b", "c", "d"]);
    assert_eq!(s.total, 3);
    assert_eq!(s.footer(10), "(3 entries)");
    assert_eq!(s.footer(3), "(3 entries)");
    let s = select(all(), at(3), 2);
    assert_eq!(names(&s.shown), vec!["c", "d"]);
    assert_eq!(s.footer(2), "(2 entries shown of 3 total; use --limit to widen)");
    let s = select(all(), at(0), 0);
    assert!(s.shown.is_empty());
    assert_eq!(s.footer(0), "(0 entries shown of 4 total; use --limit to widen)");
    let s = select(vec![], at(0), 5);
    assert_eq!(s.footer(5), "(0 entries)");
}

#[test]
fn entries_show_as_one_line() {
    let e = entry(1_779_481_113, "x");
    assert_eq!(e.line("{}").unwrap(), "2026-05-22 20:18:33  [ReadOnly]  {}");
    assert!(entry(i64::MIN, "x").line("{}").is_none());
}

#[test]
fn since_is_rfc3339_or_a_day_ago() {
    let now = Timestamp { secs: 200_000, nanos: 7 };
    assert_eq!(parse_since(None, now).unwrap(), Timestamp { secs: 113_600, nanos: 7 });
    let t = parse_since(Some("2026-05-22T20:18:33.123Z"), now).unwrap();
    assert_eq!(t, Timestamp { secs: 1_779_481_113, nanos: 123_000_000 });
    let t = parse_since(Some("2026-05-22T22:18:33+02:00"), now).unwrap();
    assert_eq!(t, at(1_779_481_113));
    let e = parse_since(Some("yesterday"), now).unwrap_err();
    assert!(e.starts_with("invalid --since: "));
    assert_eq!(since_moment(Some(Err("odd".into())), now).unwrap_err(), "invalid --since: odd");
    assert_eq!(since_moment(Some(Ok(at(3))), now).unwrap(), at(3));
}
