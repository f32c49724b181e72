//! Policies and configurations.
use membrane_daemon::config::{
    default_endpoint, default_exec_timeout_ms, default_max_output, default_max_read, merge_into,
    Config, PolicyFile, PolicyMode, DEFAULT_ENDPOINT, DEFAULT_EXEC_TIMEOUT_MS,
    MAX_EXEC_TIMEOUT_MS,
};
use membrane_daemon::pathname::Style;
use membrane_daemon::resolve::{Lookup, Resolution, Walk};

/// A disk: what is there, and the canonical path that it has; `!` for what leads
/// nowhere.
type Disk<'a> = &'a [(&'a str, &'a str)];

fn look_up(disk: Disk, asked: &[u8]) -> Lookup {
    match disk.iter().find(|(place, _)| place.as_bytes() == asked) {
        Some((_, "!")) => Lookup::Unclear,
        Some((_, canon)) => Lookup::Real(canon.as_bytes().to_vec()),
        None => Lookup::Nothing,
    }
}

/// Looks up what the policy has to know for a path, and then asks it.
fn allowed_on(style: Style, disk: Disk, policy: &PolicyMode, path: &str) -> bool {
    let mut resolution = Resolution::new(style);
    let mut lookups = 0;
    while let Some(asked) = policy.wanted(path, &resolution) {
        assert!(!resolution.answers.iter().any(|a| a.asked == asked), "looked up twice");
        lookups += 1;
        assert!(lookups < 100);
        let found = look_up(disk, &asked);
        resolution.add_answer(asked, found);
    }
    let allowed = policy.path_allowed(path, &resolution);
    resolution.add_answer(b"/unrelated".to_vec(), Lookup::Unclear);
    assert_eq!(policy.path_allowed(path, &resolution), allowed);
    allowed
}

fn allowed(disk: Disk, policy: &PolicyMode, path: &str) -> bool {
    allowed_on(Style::Unix, disk, policy, path)
}

/// A disk with a workspace, directories outside it, and links between them.
const DISK: Disk = &[
    ("/", "/"),
    (".", "/ws/sub"),
    ("/etc", "/etc"),
    ("/etc/hostname", "/etc/hostname"),
    ("/etc/passwd", "/etc/passwd"),
    ("/tmp", "/tmp"),
    ("/tmp/a", "/tmp/a"),
    ("/tmp/b", "/tmp/b"),
    ("/ws", "/ws"),
    ("/ws/sub", "/ws/sub"),
    ("/ws/sub/a", "/ws/sub/a"),
    ("/ws/notes", "/ws/notes"),
    ("/ws/notes/a.md", "/ws/notes/a.md"),
    ("/ws/link", "/etc/passwd"),
    ("/ws/out", "/etc"),
    ("/ws/broken", "!"),
    ("/in", "/ws/notes"),
    ("/data", "/data"),
    ("/data/ws", "/data/ws"),
    ("/data/ws/a", "/data/ws/a"),
    ("/data/other", "/data/other"),
    ("/home", "/home"),
    ("/home/me", "/home/me"),
    ("/home/me/ws", "/data/ws"),
    ("/srv", "!"),
];

#[test]
fn default_config_is_unrestricted() {
    let c = Config::default();
    assert!(matches!(c.policy, PolicyMode::Unrestricted));
    assert!(c.policy.writes_allowed());
    assert!(c.policy.exec_allowed("anything", Style::Unix));
}

#[test]
fn readonly_blocks_writes_and_exec() {
    let p = PolicyMode::ReadOnly { roots: vec!["/tmp".into()] };
    assert!(!p.writes_allowed());
    assert!(!p.exec_allowed("ls", Style::Unix));
}

#[test]
fn workspace_path_restriction() {
    let p = PolicyMode::Workspace { roots: vec!["/tmp".into()] };
    assert!(allowed(DISK, &p, "/tmp/foo"));
    assert!(!allowed(DISK, &p, "/etc/hostname"));
}

#[test]
fn allowlist_exec_matches_basename() {
    let p = PolicyMode::WorkspaceAllowlistExec {
        roots: vec!["/tmp".into()],
        exec_allowlist: vec!["git".into(), "/usr/bin/cargo".into()],
    };
    assert!(p.exec_allowed("git status", Style::Unix));
    assert!(p.exec_allowed("/usr/local/bin/git status", Style::Unix));
    assert!(p.exec_allowed("cargo build", Style::Unix));
    assert!(p.exec_allowed("/usr/bin/cargo test", Style::Unix));
    assert!(!p.exec_allowed("curl evil.com", Style::Unix));
    assert!(!p.exec_allowed("rm -rf /", Style::Unix));
}

#[test]
fn timeout_clamps_to_max() {
    let c = Config { max_exec_timeout_ms: 60_000, ..Config::default() };
    assert_eq!(c.effective_exec_timeout_ms(30_000), 30_000);
    assert_eq!(c.effective_exec_timeout_ms(120_000), 60_000);
    assert_eq!(c.effective_exec_timeout_ms(0), 60_000);
}

#[test]
fn defaults_are_the_documented_ones() {
    let c = Config::default();
    assert_eq!(c.endpoint, "https://cloud.membrane.example.com:443");
    assert_eq!(c.max_exec_timeout_ms, 60_000);
    assert_eq!(c.max_output_bytes, 1_048_576);
    assert_eq!(c.max_read_bytes, 16_777_216);
    assert_eq!(default_endpoint(), DEFAULT_ENDPOINT);
    assert_eq!(default_exec_timeout_ms(), DEFAULT_EXEC_TIMEOUT_MS);
    assert_eq!(default_max_output(), c.max_output_bytes);
    assert_eq!(default_max_read(), c.max_read_bytes);
}

#[test]
fn roots_and_names_of_modes() {
    let roots = || vec!["/a".to_string(), "/b".to_string()];
    let modes = vec![
        (PolicyMode::default(), "Unrestricted", None),
        (PolicyMode::Workspace { roots: roots() }, "Workspace", Some(2)),
        (
            PolicyMode::WorkspaceAllowlistExec { roots: roots(), exec_allowlist: vec![] },
            "WorkspaceAllowlistExec",
            Some(2),
        ),
        (PolicyMode::ReadOnly { roots: roots() }, "ReadOnly", Some(2)),
    ];
    for (mode, name, n) in modes {
        assert_eq!(mode.name(), name);
        assert_eq!(mode.roots().map(|r| r.len()), n);
    }
}

#[test]
fn unrestricted_allows_every_path() {
    let none = Resolution::new(Style::Unix);
    assert!(PolicyMode::Unrestricted.path_allowed("/etc/shadow", &none));
    assert!(PolicyMode::Unrestricted.path_allowed("", &none));
    assert!(PolicyMode::Unrestricted.path_allowed("/tmp/../x", &none));
    assert!(PolicyMode::Unrestricted.wanted("/etc/shadow", &none).is_none());
}

#[test]
fn no_roots_allow_no_path() {
    let p = PolicyMode::Workspace { roots: vec![] };
    assert!(!allowed(DISK, &p, "/tmp/foo"));
    assert!(p.exec_allowed("ls", Style::Unix));
}

#[test]
fn nothing_is_allowed_before_it_was_looked_up() {
    let p = PolicyMode::Workspace { roots: vec!["/ws".into()] };
    let mut r = Resolution::new(Style::Unix);
    assert_eq!(p.wanted("/ws/notes", &r).as_deref(), Some(&b"/"[..]));
    assert!(!p.path_allowed("/ws/notes", &r));
    r.add_answer(b"/".to_vec(), Lookup::Real(b"/".to_vec()));
    assert_eq!(p.wanted("/ws/notes", &r).as_deref(), Some(&b"/ws"[..]));
    assert!(!p.path_allowed("/ws/notes", &r));
    r.add_answer(b"/ws".to_vec(), Lookup::Real(b"/ws".to_vec()));
    assert_eq!(p.wanted("/ws/notes", &r).as_deref(), Some(&b"/ws/notes"[..]));
    assert!(matches!(r.lead_to(b"/ws/notes"), Walk::Wants(asked) if asked == b"/ws/notes"));
    assert!(!p.path_allowed("/ws/notes", &r));
    r.add_answer(b"/ws/notes".to_vec(), Lookup::Nothing);
    assert!(p.wanted("/ws/notes", &r).is_none());
    assert!(p.path_allowed("/ws/notes", &r));
    match r.lead_to(b"/ws/notes/./b") {
        Walk::Leads(place) => {
            assert_eq!(place.canon, b"/ws");
            assert_eq!(place.rest, [&b"notes"[..], b"b"]);
            assert!(place.passed.is_empty());
        }
        _ => panic!("it leads somewhere"),
    }
    assert!(matches!(r.lead_to(b""), Walk::Lost));
}

#[test]
fn symlink_out_of_the_workspace_is_refused() {
    let p = PolicyMode::Workspace { roots: vec!["/ws".into()] };
    assert!(!allowed(DISK, &p, "/ws/link"));
    assert!(allowed(DISK, &p, "/in/a.md"));
}

#[test]
fn new_file_behind_a_symlink_is_made_where_that_leads() {
    let p = PolicyMode::Workspace { roots: vec!["/ws".into()] };
    assert!(!allowed(DISK, &p, "/ws/out/new"));
    assert!(!allowed(DISK, &p, "/ws/out/new/deeper"));
    assert!(allowed(DISK, &p, "/ws/notes/new/deeper"));
    assert!(allowed(DISK, &p, "/in/new"));
}

#[test]
fn what_leads_nowhere_is_refused() {
    let p = PolicyMode::Workspace { roots: vec!["/ws".into()] };
    assert!(!allowed(DISK, &p, "/ws/broken"));
    assert!(!allowed(DISK, &p, "/ws/broken/new"));
    assert!(!allowed(DISK, &p, ""));
}

#[test]
fn symlinked_root_is_resolved_too() {
    let p = PolicyMode::ReadOnly { roots: vec!["/home/me/ws".into(), "/srv".into()] };
    assert!(allowed(DISK, &p, "/home/me/ws/a"));
    assert!(allowed(DISK, &p, "/data/ws/new"));
    assert!(!allowed(DISK, &p, "/data/other"));
    assert!(!allowed(DISK, &p, "/srv/x"));
}

#[test]
fn root_that_is_not_there_yet() {
    let p = PolicyMode::Workspace { roots: vec!["/later/ws".into()] };
    assert!(allowed(DISK, &p, "/later/ws"));
    assert!(allowed(DISK, &p, "/later/ws/a"));
    assert!(!allowed(DISK, &p, "/later/a"));
}

#[test]
fn paths_may_start_at_the_current_directory() {
    let p = PolicyMode::Workspace { roots: vec!["/ws".into()] };
    assert!(allowed(DISK, &p, "a"));
    assert!(allowed(DISK, &p, "./new"));
    assert!(allowed(DISK, &p, "../notes/a.md"));
    assert!(!allowed(DISK, &p, "../../etc/passwd"));
    assert!(!allowed(DISK, &PolicyMode::Workspace { roots: vec!["/tmp".into()] }, "a"));
}

#[test]
fn sibling_with_the_same_prefix_is_outside() {
    let p = PolicyMode::Workspace { roots: vec!["/ws".into()] };
    assert!(!allowed(DISK, &p, "/ws2/a"));
    assert!(allowed(DISK, &p, "/ws/./a"));
    assert!(allowed(DISK, &p, "/ws"));
}

#[test]
fn what_lies_below_an_allowed_place_is_allowed() {
    let p = PolicyMode::Workspace { roots: vec!["/ws".into()] };
    assert!(allowed(DISK, &p, "/ws/notes"));
    assert!(allowed(DISK, &p, "/ws/notes/a/b/c"));
}

#[test]
fn allowlist_takes_the_first_word() {
    let p = PolicyMode::WorkspaceAllowlistExec {
        roots: vec![],
        exec_allowlist: vec!["git".into()],
    };
    assert!(p.exec_allowed("  git\tlog", Style::Unix));
    assert!(!p.exec_allowed("sudo git", Style::Unix));
    assert!(!p.exec_allowed("", Style::Unix));
    assert!(!p.exec_allowed("/usr/bin/", Style::Unix));
    assert!(p.exec_allowed("/usr/bin/git/ log", Style::Unix));
}

#[test]
fn allowlist_knows_the_paths_of_windows() {
    let p = PolicyMode::WorkspaceAllowlistExec {
        roots: vec![],
        exec_allowlist: vec!["git.exe".into(), "D:\\bin\\cargo.exe".into()],
    };
    assert!(p.exec_allowed("C:\\tools\\git.exe status", Style::Windows));
    assert!(p.exec_allowed("C:/tools/git.exe status", Style::Windows));
    assert!(p.exec_allowed("C:git.exe", Style::Windows));
    assert!(p.exec_allowed("cargo.exe build", Style::Windows));
    assert!(!p.exec_allowed("C:\\git.exe\\evil.exe", Style::Windows));
    assert!(!p.exec_allowed("C:\\tools\\git.exe status", Style::Unix));
}

#[test]
fn workspaces_of_windows() {
    let p = PolicyMode::Workspace { roots: vec!["C:\\ws".into()] };
    let disk: Disk = &[
        ("C:\\", "\\\\?\\C:\\"),
        ("c:\\", "\\\\?\\C:\\"),
        ("D:\\", "\\\\?\\D:\\"),
        ("\\\\?\\C:\\ws", "\\\\?\\C:\\ws"),
        ("\\\\?\\D:\\link", "\\\\?\\c:\\ws\\b"),
    ];
    let allowed = |path: &str| allowed_on(Style::Windows, disk, &p, path);
    assert!(allowed("C:\\ws\\a"));
    assert!(allowed("C:/ws/a"));
    assert!(allowed("c:\\ws\\a"));
    assert!(allowed("D:\\link\\a"));
    assert!(!allowed("C:\\ws2\\a"));
    assert!(!allowed("D:\\ws\\a"));
    assert!(!allowed("C:\\ws\\..\\a"));
    assert!(allowed("C:\\ws\\x\\..\\a"));
    assert!(!allowed("\\\\s\\d\\ws"));
}

#[test]
fn climbing_out_of_the_workspace_is_refused() {
    let p = PolicyMode::Workspace { roots: vec!["/tmp".into()] };
    assert!(!allowed(DISK, &p, "/tmp/../no-such-file-xyz"));
    assert!(!allowed(DISK, &p, "/tmp/.."));
    assert!(allowed(DISK, &p, "/tmp/a..b/..c"));
    assert!(allowed(DISK, &p, "/tmp/a/../b"));
    assert!(!allowed(DISK, &p, "/tmp/new/../../etc/passwd"));
    assert!(!allowed(DISK, &p, "/tmp/new/../../../x"));
}

#[test]
fn climbing_inside_the_workspace_is_allowed() {
    let p = PolicyMode::Workspace { roots: vec!["/tmp".into()] };
    assert!(allowed(DISK, &p, "/tmp/a/../new"));
    assert!(allowed(DISK, &p, "/tmp/new/../b"));
    assert!(allowed(DISK, &p, "/tmp/new/../newer"));
    assert!(allowed(DISK, &p, "/etc/../tmp/a"));
}

#[test]
fn nothing_is_made_outside_on_the_way_in() {
    let p = PolicyMode::Workspace { roots: vec!["/tmp".into()] };
    assert!(!allowed(DISK, &p, "/etc/new/../../tmp/a"));
    assert!(!allowed(DISK, &p, "/new/../tmp/b"));
    assert!(allowed(DISK, &p, "/tmp/new/deep/../../b"));
}

fn file(
    endpoint: Option<&str>,
    policy: Option<PolicyMode>,
    timeout: Option<u32>,
    output: Option<u64>,
    read: Option<u64>,
) -> PolicyFile {
    PolicyFile {
        endpoint: endpoint.map(|e| e.to_string()),
        policy,
        max_exec_timeout_ms: timeout,
        max_output_bytes: output,
        max_read_bytes: read,
    }
}

#[test]
fn load_without_files_gives_the_default() {
    let c = Config::load(None, None);
    assert_eq!(c.endpoint, DEFAULT_ENDPOINT);
    assert_eq!(c.max_exec_timeout_ms, DEFAULT_EXEC_TIMEOUT_MS);
}

#[test]
fn missing_fields_use_defaults_on_deserialize() {
    let s = r#"
            endpoint = "https://my.endpoint:1234"
        "#;
    let entries: toml::Table = toml::from_str(s).unwrap();
    assert_eq!(entries.len(), 1);
    let set = file(entries["endpoint"].as_str(), None, None, None, None);
    let c = Config::load(Some(set), None);
    assert_eq!(c.endpoint, "https://my.endpoint:1234");
    assert!(matches!(c.policy, PolicyMode::Unrestricted));
    assert_eq!(c.max_exec_timeout_ms, DEFAULT_EXEC_TIMEOUT_MS);
}

#[test]
fn load_cuts_the_timeout_to_the_ceiling() {
    let user = file(Some("u"), None, Some(3_000_000), Some(1), Some(2));
    let c = Config::load(Some(user), None);
    assert_eq!(c.max_exec_timeout_ms, MAX_EXEC_TIMEOUT_MS);
    assert_eq!(c.max_exec_timeout_ms, 600_000);
    assert_eq!(c.effective_exec_timeout_ms(u32::MAX), 600_000);
    let system = file(None, None, Some(700_000), None, None);
    assert_eq!(Config::load(None, Some(system)).max_exec_timeout_ms, 600_000);
}

#[test]
fn system_policy_takes_precedence() {
    let free = Some(PolicyMode::Unrestricted);
    let user = file(Some("https://user:1"), free.clone(), Some(10), Some(20), Some(30));
    let ro = PolicyMode::ReadOnly { roots: vec!["/corp".into()] };
    let system = file(None, Some(ro.clone()), None, None, None);
    let c = Config::load(Some(user), Some(system));
    assert_eq!(c.policy, ro);
    assert_eq!(c.endpoint, "https://user:1");
    assert_eq!((c.max_exec_timeout_ms, c.max_output_bytes, c.max_read_bytes), (10, 20, 30));
    let user = file(None, Some(ro), None, None, None);
    let c = Config::load(Some(user), Some(file(None, free, None, None, None)));
    assert_eq!(c.policy, PolicyMode::Unrestricted);
}

#[test]
fn system_fields_win_one_by_one() {
    let ws = PolicyMode::Workspace { roots: vec!["/u".into()] };
    let user = Config {
        endpoint: "u".into(),
        policy: ws.clone(),
        max_exec_timeout_ms: 1,
        max_output_bytes: 2,
        max_read_bytes: 3,
    };
    let c = merge_into(user.clone(), file(Some("s"), None, Some(4), Some(5), Some(6)));
    assert_eq!(c.endpoint, "s");
    assert_eq!(c.policy, ws);
    assert_eq!((c.max_exec_timeout_ms, c.max_output_bytes, c.max_read_bytes), (4, 5, 6));
    let c = merge_into(user, file(None, None, None, None, None));
    assert_eq!(c.endpoint, "u");
    assert_eq!((c.max_exec_timeout_ms, c.max_output_bytes, c.max_read_bytes), (1, 2, 3));
}

#[test]
fn system_field_set_to_its_default_wins() {
    let user = file(Some("https://user:1"), None, Some(500_000), Some(7), Some(8));
    let system = file(
        Some(DEFAULT_ENDPOINT),
        None,
        Some(60_000),
        Some(default_max_output()),
        Some(default_max_read()),
    );
    let c = Config::load(Some(user), Some(system));
    assert_eq!(c.max_exec_timeout_ms, 60_000);
    assert_eq!(c.endpoint, DEFAULT_ENDPOINT);
    assert_eq!((c.max_output_bytes, c.max_read_bytes), (1_048_576, 16_777_216));
}
