//! Paths and text.
use membrane_daemon::lines::{contains, lines, trim_front};
use membrane_daemon::order::{bytes_less, sorted_order};
use membrane_daemon::pathname::{
    components_of, file_name, has_climb, has_parent, join, starts_with, Style,
};
use membrane_daemon::paths::{
    audit_dir, audit_log_for, cert_path, cloud_pin_path, key_path, system_dir, system_policy,
    user_dir, user_policy, Platform,
};
use membrane_daemon::text::{
    decimal_text, first_word, parse_u16, same_text, signed_decimal_text, strip_prefix, trim,
    trim_end_matches, white_space,
};
use std::path::Path;

#[test]
fn user_dir_resolves_to_something() {
    assert!(!user_dir(Style::Unix, None, None).is_empty());
    assert_eq!(user_dir(Style::Unix, None, None), ".");
    assert_eq!(user_dir(Style::Unix, None, Some("/home/me".into())), "/home/me/.config/membrane");
    assert_eq!(user_dir(Style::Unix, Some("/x".into()), Some("/home/me".into())), "/x");
}

#[test]
fn system_dir_is_platform_appropriate() {
    assert_eq!(system_dir(Platform::Linux, None), "/etc/membrane");
    assert_eq!(system_dir(Platform::MacOs, None), "/Library/Application Support/membrane");
    assert_eq!(system_dir(Platform::Windows, None), "C:\\ProgramData\\membrane");
    let windows = |d: &str| system_dir(Platform::Windows, Some(d.to_string()));
    assert_eq!(windows("D:\\data"), "D:\\data\\membrane");
    assert_eq!(windows("D:\\"), "D:\\membrane");
    assert_eq!(windows("D:"), "D:membrane");
    assert_eq!(windows(""), "membrane");
}

#[test]
fn audit_log_naming() {
    let p = audit_log_for(Style::Unix, "/u", "2026-05-22");
    assert!(Path::new(&p).ends_with("audit/2026-05-22.jsonl"));
    assert_eq!(p, "/u/audit/2026-05-22.jsonl");
    assert_ne!(p, audit_log_for(Style::Unix, "/u", "2026-05-23"));
}

#[test]
fn files_of_the_daemon() {
    assert_eq!(user_policy(Style::Unix, "/u"), "/u/policy.toml");
    assert_eq!(system_policy(Style::Unix, "/etc/membrane"), "/etc/membrane/policy.toml");
    assert_eq!(cert_path(Style::Unix, "/u"), "/u/daemon.crt");
    assert_eq!(key_path(Style::Unix, "/u"), "/u/daemon.key");
    assert_eq!(cloud_pin_path(Style::Unix, "/u/"), "/u/cloud.pin");
    assert_eq!(audit_dir(Style::Unix, "."), "./audit");
}

fn under(style: Style, p: &str, base: &str) -> bool {
    starts_with(&components_of(style, p.as_bytes()), &components_of(style, base.as_bytes()))
}

fn climbs(style: Style, p: &str) -> bool {
    has_climb(&components_of(style, p.as_bytes()))
}

const PATHS: [&str; 24] = [
    "", "/", "//", ".", "..", "./", "../", "a", "a/", "/a", "/a/", "/a/b", "a/./b", "./a", "a/.",
    "/.", "/./a", "a//b", "a/../b", "/a/..", ".hidden", "a.b", "/a/b/c.d", "./.",
];

#[test]
fn components_are_those_of_std() {
    for a in PATHS {
        for b in PATHS {
            assert_eq!(
                under(Style::Unix, a, b),
                Path::new(a).starts_with(b),
                "{a:?} under {b:?}"
            );
            assert_eq!(join(Style::Unix, a, b), Path::new(a).join(b).to_str().unwrap(), "{a:?} join {b:?}");
        }
        let name = file_name(Style::Unix, a.as_bytes()).map(|n| String::from_utf8(n).unwrap());
        let std_name = Path::new(a).file_name().map(|n| n.to_str().unwrap().to_string());
        assert_eq!(name, std_name, "name of {a:?}");
        let up = Path::new(a).components().any(|c| c == std::path::Component::ParentDir);
        assert_eq!(climbs(Style::Unix, a), up, "{a:?}");
        assert_eq!(has_parent(Style::Unix, a.as_bytes()), Path::new(a).parent().is_some(), "parent of {a:?}");
    }
}

#[test]
fn paths_of_windows() {
    let name = |p: &str| file_name(Style::Windows, p.as_bytes()).map(|n| String::from_utf8(n).unwrap());
    assert_eq!(name("C:\\tools\\git.exe").as_deref(), Some("git.exe"));
    assert_eq!(name("tools/sub\\git.exe\\").as_deref(), Some("git.exe"));
    assert_eq!(name("C:git.exe").as_deref(), Some("git.exe"));
    assert_eq!(name("C:\\"), None);
    assert_eq!(name("C:"), None);
    assert_eq!(name("a\\.."), None);
    assert!(!has_parent(Style::Windows, b"C:\\"));
    assert!(has_parent(Style::Windows, b"C:\\a"));
    assert!(under(Style::Windows, "C:\\a\\b", "C:/a"));
    assert!(!under(Style::Windows, "C:a", "C:\\"));
    assert!(climbs(Style::Windows, "C:\\a\\..\\b"));
    assert!(!climbs(Style::Unix, "C:\\a\\..\\b"));
    assert_eq!(join(Style::Windows, "C:\\u", "policy.toml"), "C:\\u\\policy.toml");
    assert_eq!(join(Style::Windows, "C:\\u/", "x"), "C:\\u/x");
    assert_eq!(join(Style::Windows, "C:", "x"), "C:x");
    assert_eq!(join(Style::Windows, "C:\\u", "\\x"), "C:\\x");
    assert_eq!(join(Style::Windows, "C:\\u", "D:x"), "D:x");
    assert_eq!(
        audit_log_for(Platform::Windows.style(), "C:\\u", "2026-05-22"),
        "C:\\u\\audit\\2026-05-22.jsonl"
    );
    assert_eq!(Platform::MacOs.style(), Style::Unix);
}

#[test]
fn prefixes_of_windows() {
    let name = |p: &str| file_name(Style::Windows, p.as_bytes()).map(|n| String::from_utf8(n).unwrap());
    let under = |p: &str, base: &str| under(Style::Windows, p, base);
    // A drive's letter counts as upper case, and no other name does.
    assert!(under("c:\\a", "C:\\"));
    assert!(under("C:\\a\\b", "c:/a"));
    assert!(!under("C:\\A", "C:\\a"));
    assert!(!under("d:\\a", "C:\\"));
    // A share is one component, with the root directory behind it.
    assert_eq!(name("\\\\s\\d"), None);
    assert_eq!(name("//s/d/"), None);
    assert_eq!(name("\\\\s\\d\\f").as_deref(), Some("f"));
    assert!(!has_parent(Style::Windows, b"\\\\s\\d"));
    assert!(under("\\\\s\\d\\f", "//s/d"));
    assert!(!under("\\\\s\\dd\\f", "\\\\s\\d"));
    assert_eq!(components_of(Style::Windows, b"//s/d").len(), 2);
    // So are devices and verbatim paths.
    assert_eq!(name("\\\\.\\COM1"), None);
    assert_eq!(name("\\\\?\\C:"), None);
    assert_eq!(name("\\\\?\\UNC\\s\\d"), None);
    assert_eq!(name("\\\\?\\UNC\\s\\d\\f").as_deref(), Some("f"));
    assert!(under("\\\\?\\c:\\a", "\\\\?\\C:\\"));
    assert!(!under("\\\\?\\C:\\a", "C:\\"));
    // Two separators and one name are no share.
    assert_eq!(name("\\\\s").as_deref(), Some("s"));
    assert_eq!(join(Style::Windows, "\\\\s\\d", "\\x"), "\\\\s\\d\\x");
    assert_eq!(join(Style::Windows, "C:\\u", "\\\\s\\d"), "\\\\s\\d");
    // On Unix none of this is special.
    assert_eq!(
        file_name(Style::Unix, b"//s/d").as_deref(),
        Some(&b"d"[..])
    );
    assert_eq!(components_of(Style::Unix, b"c:/a").len(), 2);
}

const TEXTS: [&str; 12] = [
    "", " ", "\t a b \n", "a", "  x", "x  ", "\u{a0}x\u{3000}", "\u{200b}x", "/a//", "//", "a\r\nb",
    "\n\nx\r",
];

#[test]
fn text_functions_are_those_of_std() {
    for t in TEXTS {
        assert_eq!(trim(t), t.trim(), "{t:?}");
        assert_eq!(trim_front(t), t.trim_start(), "{t:?}");
        assert_eq!(trim_end_matches(t, '/'), t.trim_end_matches('/'), "{t:?}");
        assert_eq!(first_word(t), t.split_whitespace().next().unwrap_or(""), "{t:?}");
        assert_eq!(lines(t), t.lines().collect::<Vec<_>>(), "{t:?}");
        for u in TEXTS {
            assert_eq!(strip_prefix(t, u), t.strip_prefix(u));
            assert_eq!(contains(t, u), t.contains(u));
            assert_eq!(same_text(t, u), t == u);
        }
    }
    for i in 0..0x3100u32 {
        if let Some(c) = char::from_u32(i) {
            assert_eq!(white_space(c), c.is_whitespace(), "{i:#x}");
        }
    }
}

#[test]
fn lines_end_as_those_of_std() {
    for t in ["a\nb", "a\nb\n", "a\r\n\r\nb\r", "\r\n", "\r", "\n", "a\r\r\nb", "one"] {
        assert_eq!(lines(t), t.lines().collect::<Vec<_>>(), "{t:?}");
    }
}

#[test]
fn numbers_are_those_of_std() {
    for n in [0u64, 9, 10, 65535, 1_000_000, u64::MAX] {
        assert_eq!(decimal_text(n), n.to_string());
    }
    for n in [0i64, -1, 7, i64::MIN, i64::MAX] {
        assert_eq!(signed_decimal_text(n), n.to_string());
    }
    for s in ["", "+", "-", "0", "+0", "-0", "007", "65535", "65536", "99999999999", "1a", " 1", "١", "99999x", "6553x6", "+65536", "++1"] {
        assert_eq!(
            parse_u16(s).map_err(|e| e.to_string()),
            s.parse::<u16>().map_err(|e| e.to_string()),
            "{s:?}"
        );
    }
}

#[test]
fn order_is_stable_and_that_of_std() {
    let keys: Vec<Vec<u8>> =
        [&b"b"[..], b"a", b"", b"ab", b"a", b"\xff", b"B"].iter().map(|k| k.to_vec()).collect();
    let mut by_std: Vec<usize> = (0..keys.len()).collect();
    by_std.sort_by(|x, y| keys[*x].cmp(&keys[*y]));
    assert_eq!(sorted_order(&keys), by_std);
    assert!(sorted_order(&vec![]).is_empty());
    for a in &keys {
        for b in &keys {
            assert_eq!(bytes_less(a, b), a < b);
        }
    }
}
