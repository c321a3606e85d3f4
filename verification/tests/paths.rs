use launchpad::errors::{PathRole, ToolError};
use launchpad::paths::{validate, validate_path, validate_path_within_base, CanonicalPath};

fn canonical(text: &str) -> CanonicalPath {
    let mut components = vec!["/".to_string()];
    for part in text.split('/') {
        if !part.is_empty() {
            components.push(part.to_string());
        }
    }
    CanonicalPath { text: text.to_string(), components }
}

fn under_project(target_path: &str, target: Option<CanonicalPath>) -> Result<launchpad::paths::ValidatedPath, ToolError> {
    validate_path_within_base("/home/user/project", Some(canonical("/home/user/project")), target_path, target)
}

#[test]
fn missing_entry_is_not_found() {
    let r = validate_path("nowhere/at/all", None);
    assert_eq!(r.err(), Some(ToolError::NotFound(PathRole::Path, "nowhere/at/all".to_string())));
}

#[test]
fn plain_path_is_accepted() {
    let p = validate_path("proj", Some(canonical("/home/user/proj"))).unwrap();
    assert_eq!(p.as_str(), "/home/user/proj");
    assert_eq!(p.requested(), "proj");
    assert_eq!(p.name(), "proj");
    assert_eq!(p.components().len(), 4);
    let root = validate_path("/", Some(CanonicalPath { text: "/".to_string(), components: vec!["/".to_string()] })).unwrap();
    assert_eq!(root.name(), "/");
    let bare = validate_path("x", Some(CanonicalPath { text: "whole".to_string(), components: vec![] })).unwrap();
    assert_eq!(bare.name(), "whole");
}

#[test]
fn sensitive_fragments_are_denied() {
    for text in [
        "/home/user/.ssh/id_rsa",
        "/home/user/.gnupg",
        "/home/user/.aws/config",
        "/home/user/.azure",
        "/srv/app/credentials.json",
        "C:\\Windows\\System32\\drivers",
        "C:\\Windows\\SysWOW64",
        "C:\\Program Files\\App",
        "C:\\ProgramData\\x",
        "C:\\Users\\u\\AppData\\Local\\Microsoft\\x",
        "C:\\Users\\u\\AppData\\Roaming\\Microsoft\\x",
    ] {
        let r = validate_path(text, Some(canonical(text)));
        assert_eq!(r.err(), Some(ToolError::AccessDenied), "{}", text);
    }
}

#[test]
fn denylist_is_case_sensitive() {
    assert!(validate_path("x", Some(canonical("/home/user/Credentials"))).is_ok());
}

#[test]
fn sensitive_path_is_denied_with_and_without_a_base() {
    let base = validate_path("/home/user", Some(canonical("/home/user"))).unwrap();
    let inside = validate("/home/user/.ssh", Some(canonical("/home/user/.ssh")), Some(&base));
    assert_eq!(inside.err(), Some(ToolError::AccessDenied));
    let no_base = validate("/etc/.ssh", Some(canonical("/etc/.ssh")), None);
    assert_eq!(no_base.err(), Some(ToolError::AccessDenied));
}

#[test]
fn escape_from_base_is_reported_before_a_sensitive_location() {
    let base = validate_path("/home/user", Some(canonical("/home/user"))).unwrap();
    let outside = validate("/etc/.ssh", Some(canonical("/etc/.ssh")), Some(&base));
    assert_eq!(outside.err(), Some(ToolError::TraversalDenied));
    let r = under_project("../.aws/config", Some(canonical("/home/user/.aws/config")));
    assert_eq!(r.err(), Some(ToolError::TraversalDenied));
}

#[test]
fn escape_from_base_is_traversal_denied() {
    let r = under_project("../../etc/ssh_keys", Some(canonical("/home/etc/ssh_keys")));
    assert_eq!(r.err(), Some(ToolError::TraversalDenied));
    assert_eq!(ToolError::TraversalDenied.message(), "Path traversal not allowed");
    let absolute = under_project("/etc/passwd", Some(canonical("/etc/passwd")));
    assert_eq!(absolute.err(), Some(ToolError::TraversalDenied));
}

#[test]
fn symlink_that_resolves_outside_base_is_traversal_denied() {
    let r = under_project("link/data", Some(canonical("/var/data")));
    assert_eq!(r.err(), Some(ToolError::TraversalDenied));
}

#[test]
fn sibling_with_common_name_prefix_is_outside_base() {
    let r = under_project("../project2", Some(canonical("/home/user/project2")));
    assert_eq!(r.err(), Some(ToolError::TraversalDenied));
}

#[test]
fn descendant_and_base_itself_are_accepted() {
    let child = under_project("src/a.ts", Some(canonical("/home/user/project/src/a.ts")));
    assert_eq!(child.unwrap().as_str(), "/home/user/project/src/a.ts");
    assert!(under_project(".", Some(canonical("/home/user/project"))).is_ok());
    let inside_sensitive = under_project(".ssh/key", Some(canonical("/home/user/project/.ssh/key")));
    assert_eq!(inside_sensitive.err(), Some(ToolError::AccessDenied));
}

#[test]
fn missing_target_and_missing_base_have_their_own_texts() {
    let r = under_project("ghost", None);
    assert_eq!(r.as_ref().err(), Some(&ToolError::NotFound(PathRole::Target, "ghost".to_string())));
    assert_eq!(r.err().unwrap().message(), "Target path does not exist: ghost");
    let no_base = validate_path_within_base("/gone", None, "x", Some(canonical("/gone/x")));
    assert_eq!(no_base.as_ref().err(), Some(&ToolError::NotFound(PathRole::Base, "/gone".to_string())));
    assert_eq!(no_base.err().unwrap().message(), "Base path does not exist: /gone");
    let neither = validate_path_within_base("/gone", None, "x", None);
    assert_eq!(neither.err(), Some(ToolError::NotFound(PathRole::Base, "/gone".to_string())));
    let base = validate_path("/home/user", Some(canonical("/home/user"))).unwrap();
    let under = validate("ghost", None, Some(&base));
    assert_eq!(under.err(), Some(ToolError::NotFound(PathRole::Target, "ghost".to_string())));
}

#[test]
fn error_messages() {
    assert_eq!(
        ToolError::NotFound(PathRole::Path, "p".to_string()).message(),
        "Path does not exist or is not accessible: p"
    );
    assert_eq!(ToolError::NotAFile.message(), "Path is not a file");
    assert_eq!(ToolError::TraversalDenied.message(), "Path traversal not allowed");
    assert_eq!(ToolError::AccessDenied.message(), "Access to this directory is not allowed");
    assert_eq!(ToolError::TooLarge.message(), "File too large (> 1MB). Use grep_files for large files.");
    assert_eq!(ToolError::ReadError("bad".to_string()).message(), "Failed to read file: bad");
    assert_eq!(ToolError::MissingArgument("base_path".to_string()).message(), "Missing base_path");
    assert_eq!(ToolError::UnknownTool("rm".to_string()).message(), "Unknown tool: rm");
    assert_eq!(ToolError::TransportError("t".to_string()).message(), "Request failed: t");
    assert_eq!(ToolError::ApiError("b".to_string()).message(), "API error: b");
    assert_eq!(ToolError::ParseError("c".to_string()).message(), "Failed to parse response: c");
    assert_eq!(ToolError::NoContent.message(), "No content in response");
    assert_eq!(ToolError::IterationLimitExceeded.message(), "Max tool iterations reached");
}
