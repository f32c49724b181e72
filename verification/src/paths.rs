//! Where the daemon's files are.
//!
//! Two directories: the user's, which holds the configuration, the certificate
//! and the audit log; and the system's, where an organisation puts the policy
//! that takes precedence, and which the daemon only reads.
use vstd::prelude::*;

use crate::pathname;
use crate::pathname::Style;
use crate::text;

verus! {

/// The platforms that are told apart.
#[derive(Debug, Clone, Copy, PartialEq, Eq, Structural)]
pub enum Platform {
    Linux,
    MacOs,
    Windows,
}

impl Platform {
    /// How the platform writes paths.
    pub open spec fn path_style(self) -> Style {
        match self {
            Platform::Windows => Style::Windows,
            _ => Style::Unix,
        }
    }

    /// How the platform writes paths.
    pub fn style(self) -> (res: Style)
        ensures
            res == self.path_style(),
    {
        match self {
            Platform::Windows => Style::Windows,
            _ => Style::Unix,
        }
    }
}

/// The user's directory: the one that the platform has for the project, else
/// the usual one below the home directory, else the current one.
pub open spec fn user_dir_of(
    style: Style,
    project: Option<Seq<char>>,
    home: Option<Seq<char>>,
) -> Seq<char> {
    match (project, home) {
        (Some(dir), _) => dir,
        (None, Some(home)) => pathname::join_of(
            style,
            pathname::join_of(style, home, ".config"@),
            "membrane"@,
        ),
        (None, None) => "."@,
    }
}

/// The user's directory, given the platform's configuration directory for the
/// project and the home directory, each if there is one.
pub fn user_dir(style: Style, project: Option<String>, home: Option<String>) -> (res: String)
    ensures
        res@ == user_dir_of(style, text::said(project), text::said(home)),
{
    match project {
        Some(dir) => dir,
        None => match home {
            Some(home) => {
                let config = pathname::join(style, home.as_str(), ".config");
                pathname::join(style, config.as_str(), "membrane")
            },
            None => ".".to_string(),
        },
    }
}

/// The system's directory.
pub open spec fn system_dir_of(platform: Platform, program_data: Option<Seq<char>>) -> Seq<char> {
    match platform {
        Platform::Linux => "/etc/membrane"@,
        Platform::MacOs => "/Library/Application Support/membrane"@,
        Platform::Windows => match program_data {
            Some(dir) => pathname::join_of(Style::Windows, dir, "membrane"@),
            None => "C:\\ProgramData\\membrane"@,
        },
    }
}

/// The system's directory. `program_data` is what Windows has for the data of
/// programs, if it says so.
pub fn system_dir(platform: Platform, program_data: Option<String>) -> (res: String)
    ensures
        res@ == system_dir_of(platform, text::said(program_data)),
{
    match platform {
        Platform::Linux => "/etc/membrane".to_string(),
        Platform::MacOs => "/Library/Application Support/membrane".to_string(),
        Platform::Windows => match program_data {
            Some(dir) => pathname::join(Style::Windows, dir.as_str(), "membrane"),
            None => "C:\\ProgramData\\membrane".to_string(),
        },
    }
}

/// The user's policy file.
pub fn user_policy(style: Style, user_dir: &str) -> (res: String)
    ensures
        res@ == pathname::join_of(style, user_dir@, "policy.toml"@),
{
    pathname::join(style, user_dir, "policy.toml")
}

/// The system's policy file.
pub fn system_policy(style: Style, system_dir: &str) -> (res: String)
    ensures
        res@ == pathname::join_of(style, system_dir@, "policy.toml"@),
{
    pathname::join(style, system_dir, "policy.toml")
}

/// The daemon's certificate.
pub fn cert_path(style: Style, user_dir: &str) -> (res: String)
    ensures
        res@ == pathname::join_of(style, user_dir@, "daemon.crt"@),
{
    pathname::join(style, user_dir, "daemon.crt")
}

/// The daemon's private key.
pub fn key_path(style: Style, user_dir: &str) -> (res: String)
    ensures
        res@ == pathname::join_of(style, user_dir@, "daemon.key"@),
{
    pathname::join(style, user_dir, "daemon.key")
}

/// The pin of the cloud's certificate.
pub fn cloud_pin_path(style: Style, user_dir: &str) -> (res: String)
    ensures
        res@ == pathname::join_of(style, user_dir@, "cloud.pin"@),
{
    pathname::join(style, user_dir, "cloud.pin")
}

/// The directory of the audit logs.
pub open spec fn audit_dir_of(style: Style, user_dir: Seq<char>) -> Seq<char> {
    pathname::join_of(style, user_dir, "audit"@)
}

/// The directory of the audit logs.
pub fn audit_dir(style: Style, user_dir: &str) -> (res: String)
    ensures
        res@ == audit_dir_of(style, user_dir@),
{
    pathname::join(style, user_dir, "audit")
}

/// The audit log of a day.
pub open spec fn audit_log_of(style: Style, user_dir: Seq<char>, day: Seq<char>) -> Seq<char> {
    pathname::join_of(style, audit_dir_of(style, user_dir), day + ".jsonl"@)
}

/// The audit log of a day.
pub fn audit_log_for(style: Style, user_dir: &str, day: &str) -> (res: String)
    ensures
        res@ == audit_log_of(style, user_dir@, day@),
{
    let dir = audit_dir(style, user_dir);
    let name = text::text2(day, ".jsonl");
    pathname::join(style, dir.as_str(), name.as_str())
}

/// Whether a text is one name, and no path of its own: it has no prefix and is
/// not absolute.
pub open spec fn is_name(style: Style, s: Seq<char>) -> bool {
    &&& pathname::prefix_len(style, pathname::text_units(s)) == 0
    &&& !pathname::is_rooted(style, pathname::text_units(s))
}

/// A name stays one with an ending behind it.
proof fn lemma_name_with_ending(style: Style, a: Seq<char>)
    requires
        is_name(style, a),
    ensures
        is_name(style, a + ".jsonl"@),
{
    reveal_strlit(".jsonl");
    let x = a + ".jsonl"@;
    let u = pathname::text_units(a);
    let v = pathname::text_units(x);
    if a.len() > 0 {
        assert(!pathname::is_separator(style, u[0]));
        assert(v[0] == u[0]);
    } else {
        assert(x[0] == '.');
        assert(v[0] == 0x2e);
    }
    if a.len() >= 2 {
        assert(v[1] == u[1]);
        assert(!pathname::has_drive(style, u));
    } else if a.len() == 1 {
        assert(x[1] == '.');
        assert(v[1] == 0x2e);
    }
    assert(!pathname::has_drive(style, v));
    assert(pathname::share_len(style, v) == 0);
}

/// Each day has a log of its own.
pub proof fn law_one_log_per_day(style: Style, user_dir: Seq<char>, a: Seq<char>, b: Seq<char>)
    requires
        is_name(style, a),
        is_name(style, b),
        audit_log_of(style, user_dir, a) == audit_log_of(style, user_dir, b),
    ensures
        a == b,
{
    reveal_strlit(".jsonl");
    let x = a + ".jsonl"@;
    let y = b + ".jsonl"@;
    let dir = audit_dir_of(style, user_dir);
    let whole = audit_log_of(style, user_dir, a);
    lemma_name_with_ending(style, a);
    lemma_name_with_ending(style, b);
    let lead = if pathname::is_joined_bare(style, pathname::text_units(dir)) {
        dir
    } else {
        dir.push(pathname::separator(style))
    };
    assert(whole =~= lead + x);
    assert(whole =~= lead + y);
    assert(x =~= whole.skip(lead.len() as int));
    assert(y =~= whole.skip(lead.len() as int));
    assert(a =~= x.take(x.len() - 6));
    assert(b =~= y.take(y.len() - 6));
}

/// The user's directory is the platform's own for the project if it has one; else
/// it lies below the home directory; else it is the current one.
pub proof fn law_user_directory(style: Style, project: Seq<char>, home: Option<Seq<char>>, at: Seq<char>)
    ensures
        user_dir_of(style, Some(project), home) == project,
        user_dir_of(style, None, None) == "."@,
        user_dir_of(Style::Unix, None, Some(at)) == pathname::join_of(
            Style::Unix,
            pathname::join_of(Style::Unix, at, ".config"@),
            "membrane"@,
        ),
{
}

/// The system's directory is where each platform keeps such things, whatever is
/// said of another platform's.
pub proof fn law_system_directory(program_data: Option<Seq<char>>, dir: Seq<char>)
    ensures
        system_dir_of(Platform::Linux, program_data) == "/etc/membrane"@,
        system_dir_of(Platform::MacOs, program_data) == "/Library/Application Support/membrane"@,
        system_dir_of(Platform::Windows, None) == "C:\\ProgramData\\membrane"@,
        system_dir_of(Platform::Windows, Some(dir)) == pathname::join_of(
            Style::Windows,
            dir,
            "membrane"@,
        ),
        Platform::Linux.path_style() == Style::Unix,
        Platform::MacOs.path_style() == Style::Unix,
        Platform::Windows.path_style() == Style::Windows,
{
}

/// On Unix, a day's log is the file named after it in the directory `audit` of the
/// user's directory.
pub proof fn law_log_of_a_day(user_dir: Seq<char>, day: Seq<char>)
    requires
        user_dir.len() > 0,
        user_dir.last() != '/',
        day.len() > 0,
        day[0] != '/',
    ensures
        audit_log_of(Style::Unix, user_dir, day) == user_dir + "/audit/"@ + day + ".jsonl"@,
{
    reveal_strlit("audit");
    reveal_strlit("/audit/");
    reveal_strlit(".jsonl");
    let dir = user_dir + "/audit"@;
    reveal_strlit("/audit");
    pathname::law_joined_behind_a_separator(user_dir, "audit"@);
    assert(user_dir.push('/') + "audit"@ =~= dir);
    assert(audit_dir_of(Style::Unix, user_dir) == dir);
    let file = day + ".jsonl"@;
    assert(file[0] == day[0]);
    assert(dir.last() == "audit"@[4]);
    pathname::law_joined_behind_a_separator(dir, file);
    assert(dir.push('/') + file =~= user_dir + "/audit/"@ + day + ".jsonl"@);
}

} // verus!
