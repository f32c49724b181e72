//! Where paths lead.
use membrane_daemon::pathname::{components_of, Style};
use membrane_daemon::resolve::{Lookup, Place, Resolution, Walk};

/// Follows a path on a disk on which these places are there, each under its
/// canonical path.
fn place(style: Style, disk: &[(&str, &str)], path: &str) -> Place {
    let mut resolution = Resolution::new(style);
    loop {
        match resolution.lead_to(path.as_bytes()) {
            Walk::Leads(place) => return place,
            Walk::Wants(asked) => {
                let found = match disk.iter().find(|(p, _)| p.as_bytes() == asked) {
                    Some((_, canon)) => Lookup::Real(canon.as_bytes().to_vec()),
                    None => Lookup::Nothing,
                };
                resolution.add_answer(asked, found);
            }
            Walk::Lost => panic!("{path:?} leads nowhere"),
        }
    }
}

#[test]
fn plain_paths_lead_to_themselves() {
    let disk = [("/", "/"), ("/a", "/a"), ("/a/b", "/a/b")];
    for path in ["/", "/a", "/a/b", "/a/b/c/d", "/new", "//a//b/", "/a/./new/."] {
        let place = place(Style::Unix, &disk, path);
        assert_eq!(
            place.components(Style::Unix),
            components_of(Style::Unix, path.as_bytes()),
            "{path:?}"
        );
        assert!(place.passed.is_empty());
    }
}

#[test]
fn links_lead_on_from_where_they_point() {
    let disk = [("/", "/"), ("/l", "/x/y"), ("/x/y/m", "/z"), ("/x", "/x"), ("/x/k", "/x/k")];
    let at = |path: &str| place(Style::Unix, &disk, path).canon;
    assert_eq!(at("/l"), b"/x/y");
    assert_eq!(at("/l/m"), b"/z");
    assert_eq!(at("/l/.."), b"/x");
    assert_eq!(at("/l/../k"), b"/x/k");
    assert_eq!(at("/../.."), b"/");
    let new = place(Style::Unix, &disk, "/l/n/o/../p");
    assert_eq!(new.canon, b"/x/y");
    assert_eq!(new.rest, [&b"n"[..], b"p"]);
    assert_eq!(new.passed, [components_of(Style::Unix, b"/x/y/n/o")]);
}

#[test]
fn paths_of_windows_start_at_their_prefix() {
    let disk = [
        ("C:\\", "\\\\?\\C:\\"),
        ("C:", "\\\\?\\C:\\here"),
        (".", "\\\\?\\C:\\here"),
        ("\\\\s\\d\\", "\\\\?\\UNC\\s\\d\\"),
    ];
    let at = |path: &str| String::from_utf8(place(Style::Windows, &disk, path).canon).unwrap();
    assert_eq!(at("C:\\"), "\\\\?\\C:\\");
    assert_eq!(at("C:/new"), "\\\\?\\C:\\");
    assert_eq!(at("C:new"), "\\\\?\\C:\\here");
    assert_eq!(at("new"), "\\\\?\\C:\\here");
    assert_eq!(at("..\\new"), "\\\\?\\C:\\");
    assert_eq!(at("C:\\..\\new"), "\\\\?\\C:\\");
    assert_eq!(at("\\\\s\\d"), "\\\\?\\UNC\\s\\d\\");
    assert_eq!(at("\\\\s\\d\\.."), "\\\\?\\UNC\\s\\d\\");
}
