//! The commands.
use membrane_daemon::audit::Event;
use membrane_daemon::cli::{
    banner, change_mode, choose_mode, complain, enrolled_event, judge_reply, keypair_line,
    normalise_cloud_url, paired_event, plan_enrol, plan_pair, preview, read_reply, report_config,
    report_paired, report_places, require_key, shutdown_event, startup_event,
    stdio_shutdown_event, PairPlan, Places, ReplyBody, TokenSource,
};
use membrane_daemon::config::{Config, PolicyMode};

#[test]
fn bare_base_url_unchanged() {
    assert_eq!(normalise_cloud_url("https://mcp.example.com"), "https://mcp.example.com");
}

#[test]
fn strips_trailing_slash() {
    assert_eq!(normalise_cloud_url("https://mcp.example.com/"), "https://mcp.example.com");
}

#[test]
fn strips_mcp_path() {
    assert_eq!(
        normalise_cloud_url("https://mcp.example.com/v1/mcp"),
        "https://mcp.example.com"
    );
}

#[test]
fn strips_account_paths() {
    assert_eq!(
        normalise_cloud_url("https://mcp.example.com/account/agents"),
        "https://mcp.example.com"
    );
}

#[test]
fn handles_whitespace_and_trailing_slash() {
    assert_eq!(
        normalise_cloud_url("  https://mcp.example.com/v1/mcp/  "),
        "https://mcp.example.com"
    );
}

#[test]
fn strips_every_known_path() {
    for path in [
        "/v1/mcp",
        "/v1/agent/enroll",
        "/v1/agent",
        "/v1",
        "/account/agents",
        "/account/signup",
        "/account/login",
        "/account",
        "/admin/tenants",
        "/admin",
        "/docs",
    ] {
        assert_eq!(normalise_cloud_url(&format!("\thttps://h:8{path}//\n")), "https://h:8");
        assert_eq!(normalise_cloud_url(&format!("https://h//{path}/docs")), "https://h");
    }
}

#[test]
fn base_url_is_bare_whatever_was_given() {
    let many = "/docs".repeat(7);
    assert_eq!(normalise_cloud_url(&format!("https://h{many}")), "https://h");
    assert_eq!(normalise_cloud_url("https://mcp.example.com/foo"), "https://mcp.example.com");
    assert_eq!(normalise_cloud_url("https://h:8/other/?q=1#x"), "https://h:8");
    assert_eq!(normalise_cloud_url("https://h?next=http://other/"), "https://h");
    assert_eq!(normalise_cloud_url("https://h#top"), "https://h");
    assert_eq!(normalise_cloud_url("https://v1"), "https://v1");
    assert_eq!(normalise_cloud_url("h:8/login?next=http://other"), "h:8");
    assert_eq!(normalise_cloud_url("http://[::1]:9/v1"), "http://[::1]:9");
    assert_eq!(normalise_cloud_url("https://"), "https:");
    assert_eq!(normalise_cloud_url(""), "");
    assert_eq!(normalise_cloud_url("///"), "");
}

#[test]
fn enrolment_goes_to_the_base() {
    let plan = plan_enrol("https://h/", "key");
    assert_eq!(plan.url, "https://h/v1/agent/enroll");
    assert_eq!(plan.authorization, "Bearer key");
    assert_eq!(plan.notes, vec!["enrolling against https://h/v1/agent/enroll"]);
    let plan = plan_enrol("https://h/v1/mcp", "key");
    assert_eq!(
        plan.notes,
        vec![
            "note: stripped trailing path from --enrol; using base URL https://h",
            "enrolling against https://h/v1/agent/enroll",
        ]
    );
}

#[test]
fn enrolment_replies_are_read() {
    let ok = read_reply(200, "200 OK", br#"{"token":"T","cert_handle":"h1","x":1}"#).unwrap();
    assert_eq!((ok.token.as_str(), ok.cert_handle.as_str()), ("T", "h1"));
    let ok = read_reply(299, "299", br#"{"token":"T","cert_handle":7}"#).unwrap();
    assert_eq!(ok.cert_handle, "(unknown)");
    let e = read_reply(403, "403 Forbidden", br#"{"error":"bad key"}"#).unwrap_err();
    assert_eq!(e.message, "enrolment rejected (403 Forbidden): bad key");
    let e = read_reply(300, "300 Multiple Choices", b"[]").unwrap_err();
    assert_eq!(e.message, "enrolment rejected (300 Multiple Choices): (unknown error)");
    let e = read_reply(200, "200 OK", br#"{ "tok" : 1 }"#).unwrap_err();
    assert_eq!(e.message, "response missing `token` field: {\"tok\":1}");
}

#[test]
fn replies_that_are_no_json_are_shown() {
    let e = read_reply(200, "200 OK", b"<html>").unwrap_err();
    let head = "enrolment endpoint returned non-JSON response (status 200 OK)\n\nThis usually means \
                the --enrol URL is wrong. Make sure you're\npassing the cloud's base URL (e.g. \
                https://mcp.example.com),\nnot the MCP endpoint (e.g. \
                https://mcp.example.com/v1/mcp).\n\nServer returned: ";
    assert!(e.message.starts_with(&format!("{head}<html>\nParse error: ")));
    let long = "é".repeat(300);
    let e = complain("200 OK", &long, "why");
    assert_eq!(e.message, format!("{head}{}\nParse error: why", "é".repeat(200)));
    assert_eq!(preview("short"), "short");
    let e = read_reply(200, "200 OK", &[0xff, b'a']).unwrap_err();
    assert!(e.message.contains("Server returned: \u{fffd}a\n"));
}

#[test]
fn reply_bodies_are_judged() {
    let body = |token: Option<&str>| ReplyBody {
        error: None,
        token: token.map(|t| t.to_string()),
        cert_handle: None,
        text: "{}".into(),
    };
    assert_eq!(judge_reply(204, "204", body(Some("t"))).unwrap().token, "t");
    assert_eq!(
        judge_reply(200, "200", body(None)).unwrap_err().message,
        "response missing `token` field: {}"
    );
    assert_eq!(
        judge_reply(199, "199", body(Some("t"))).unwrap_err().message,
        "enrolment rejected (199): (unknown error)"
    );
}

fn some(s: &str) -> Option<String> {
    Some(s.to_string())
}

#[test]
fn pair_arguments_are_checked() {
    let e = plan_pair(some("t"), None, some("u"), None).unwrap_err();
    assert_eq!(e.message, "--token and --enrol are mutually exclusive");
    let e = plan_pair(None, None, some("u"), None).unwrap_err();
    assert_eq!(e.message, "--enrol requires --api-key");
    match plan_pair(None, None, some("u"), some("k")).unwrap() {
        PairPlan::Enrol { cloud_url, api_key } => assert_eq!((cloud_url, api_key), ("u".into(), "k".into())),
        other => panic!("wrong plan: {:?}", other),
    }
    assert!(matches!(plan_pair(None, None, None, some("k")).unwrap(), PairPlan::Request { out: None }));
    assert!(matches!(
        plan_pair(None, some("/o"), None, None).unwrap(),
        PairPlan::Request { out: Some(p) } if p == "/o"
    ));
    assert!(matches!(
        plan_pair(some("T"), None, None, None).unwrap(),
        PairPlan::Install(TokenSource::Inline(t)) if t == "T"
    ));
    assert!(matches!(
        plan_pair(some("@/f"), None, None, None).unwrap(),
        PairPlan::Install(TokenSource::File(p)) if p == "/f"
    ));
}

#[test]
fn pairing_is_reported() {
    assert_eq!(keypair_line(true, "/k"), "generated new daemon keypair at /k");
    assert_eq!(keypair_line(false, "/k"), "reusing existing daemon keypair at /k");
    assert!(require_key(true, "/k").is_ok());
    assert_eq!(
        require_key(false, "/k").unwrap_err().message,
        "no daemon keypair at /k — run `membrane-daemon pair` (no args) first to generate one and \
         produce a CSR"
    );
    assert_eq!(
        report_paired("paired:", "/c", "/p", "E", Some("old"), Some("acme")),
        vec![
            "paired:",
            "  daemon cert: /c",
            "  cloud pin:   /p",
            "  endpoint:    E",
            "  (previous endpoint was: old)",
            "  label:       acme",
        ]
    );
    assert_eq!(report_paired("t", "c", "p", "e", None, None).len(), 4);
}

fn detail(e: Event) -> (String, String) {
    match e {
        Event::Lifecycle { event, detail } => (event, detail),
        other => panic!("wrong event: {:?}", other),
    }
}

#[test]
fn lifecycle_events_say_what_happened() {
    let cfg = Config { endpoint: "E".into(), ..Config::default() };
    let pair = |a: &str, b: &str| (a.to_string(), b.to_string());
    assert_eq!(
        detail(startup_event("1.2", &cfg)),
        pair("startup", "daemon v1.2 mode=Unrestricted endpoint=E")
    );
    assert_eq!(detail(shutdown_event(None)), pair("shutdown", "clean"));
    assert_eq!(detail(shutdown_event(Some("port"))), pair("shutdown", "error: port"));
    assert_eq!(detail(stdio_shutdown_event(None)), pair("shutdown", "clean"));
    assert_eq!(detail(stdio_shutdown_event(Some("x"))), pair("shutdown", "x"));
    assert_eq!(detail(paired_event("E")), pair("paired", "endpoint=E"));
    assert_eq!(
        detail(enrolled_event("E", "h")),
        pair("paired_via_enrol", "endpoint=E cert=h")
    );
}

#[test]
fn modes_are_chosen_by_name() {
    let roots = || vec!["/ws".to_string()];
    let bins = || vec!["git".to_string()];
    assert_eq!(choose_mode("unrestricted", vec![], vec![]).unwrap(), PolicyMode::Unrestricted);
    assert_eq!(
        choose_mode("workspace", roots(), vec![]).unwrap(),
        PolicyMode::Workspace { roots: roots() }
    );
    for name in ["allowlist", "workspaceallowlistexec"] {
        assert_eq!(
            choose_mode(name, roots(), bins()).unwrap(),
            PolicyMode::WorkspaceAllowlistExec { roots: roots(), exec_allowlist: bins() }
        );
    }
    assert_eq!(
        choose_mode("readonly", roots(), bins()).unwrap(),
        PolicyMode::ReadOnly { roots: roots() }
    );
    let err = |m: &str, r, b| choose_mode(m, r, b).unwrap_err().message;
    assert_eq!(err("workspace", vec![], bins()), "workspace mode requires at least one --root");
    assert_eq!(err("allowlist", vec![], bins()), "allowlist mode requires at least one --root");
    assert_eq!(err("allowlist", roots(), vec![]), "allowlist mode requires at least one --allow-bin");
    assert_eq!(err("readonly", vec![], vec![]), "readonly mode requires at least one --root");
    assert_eq!(
        err("off", roots(), vec![]),
        "unknown mode 'off'; use: unrestricted, workspace, allowlist, readonly"
    );
}

#[test]
fn mode_names_are_taken_in_any_case() {
    let cfg = Config { endpoint: "E".into(), max_read_bytes: 3, ..Config::default() };
    let new = change_mode(cfg, "ReadOnly", vec!["/ws".into()], vec![]).unwrap();
    assert_eq!(new.policy, PolicyMode::ReadOnly { roots: vec!["/ws".into()] });
    assert_eq!((new.endpoint.as_str(), new.max_read_bytes), ("E", 3));
    let e = change_mode(Config::default(), "OFF", vec![], vec![]).unwrap_err();
    assert_eq!(e.message, "unknown mode 'off'; use: unrestricted, workspace, allowlist, readonly");
}

#[test]
fn banner_names_endpoint_and_roots() {
    let cfg = Config {
        endpoint: "E".into(),
        policy: PolicyMode::Workspace { roots: vec!["/a".into(), "/b".into()] },
        ..Config::default()
    };
    assert_eq!(
        banner("0.1", &cfg),
        vec![
            "membrane-daemon v0.1 starting",
            "  endpoint: E",
            "  policy:   Workspace",
            "    root: /a",
            "    root: /b",
        ]
    );
}

#[test]
fn status_is_reported() {
    let cfg = Config {
        endpoint: "E".into(),
        policy: PolicyMode::WorkspaceAllowlistExec {
            roots: vec!["/a".into()],
            exec_allowlist: vec!["git".into()],
        },
        ..Config::default()
    };
    assert_eq!(
        report_config(&cfg),
        vec![
            "Configuration:",
            "  endpoint:           E",
            "  policy mode:        WorkspaceAllowlistExec",
            "  workspace roots:",
            "    - /a",
            "  exec allowlist:",
            "    - git",
            "  max exec timeout:   60000 ms",
            "  max output:         1048576 bytes",
            "  max single read:    16777216 bytes",
        ]
    );
    assert_eq!(report_config(&Config::default()).len(), 6);
    let places = Places {
        user_dir: "/u".into(),
        user_policy: "/u/policy.toml".into(),
        system_policy: "/etc/membrane/policy.toml".into(),
        cert_path: "/u/daemon.crt".into(),
        audit_dir: "/u/audit".into(),
    };
    assert_eq!(
        report_places(&places, false, "running"),
        vec![
            "Paths:",
            "  user dir:           /u",
            "  user policy:        /u/policy.toml",
            "  system policy:      /etc/membrane/policy.toml",
            "  cert:               /u/daemon.crt",
            "  audit dir:          /u/audit",
            "  cert status:        missing (run `pair`)",
            "  service status:     running",
        ]
    );
    assert_eq!(report_places(&places, true, "x")[6], "  cert status:        present");
}
