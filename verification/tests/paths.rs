use agent::tools::paths::resolve_path;
use agent::tools::paths::{is_ignored_path, resolve_within};

const WD: &str = "/home/user/proj";

#[test]
fn is_ignored_path_detects_dot_dirs() {
    assert!(is_ignored_path(".git/config"));
    assert!(is_ignored_path("src/.cache/foo"));
    assert!(is_ignored_path(".DS_Store"));
}

#[test]
fn is_ignored_path_detects_ignore_dirs() {
    assert!(is_ignored_path("target/debug/foo"));
    assert!(is_ignored_path("node_modules/x"));
}

#[test]
fn is_ignored_path_passes_normal() {
    assert!(!is_ignored_path("src/main.rs"));
    assert!(!is_ignored_path("Cargo.toml"));
}

#[test]
fn is_ignored_path_skips_dot_components() {
    assert!(!is_ignored_path("./src/../lib.rs"));
    assert!(!is_ignored_path(""));
    assert!(is_ignored_path("a//build/x"));
    assert!(!is_ignored_path("builds/x"));
}

#[test]
fn accepts_nested_relative() {
    let result = resolve_within("src/main.rs", WD).unwrap();
    assert!(result.starts_with(WD));
    assert!(result.ends_with("src/main.rs"));
    assert_eq!(result, "/home/user/proj/src/main.rs");
}

#[test]
fn accepts_absolute_inside() {
    let inside = format!("{WD}/foo.txt");
    let result = resolve_within(&inside, WD).unwrap();
    assert_eq!(result, inside);
}

#[test]
fn normalizes_redundant_dots() {
    let result = resolve_within("./src/../src/./main.rs", WD).unwrap();
    assert_eq!(result, "/home/user/proj/src/main.rs");
}

#[test]
fn escape_via_dotdot() {
    let err = resolve_within("../../etc/passwd", WD).unwrap_err();
    assert!(err.contains("escapes working directory"));
}

#[test]
fn escape_via_absolute_path_outside() {
    let err = resolve_within("/etc/passwd", WD).unwrap_err();
    assert!(err.contains("escapes working directory"));
}

#[test]
fn recovers_absolute_path_with_matching_wd_basename() {
    let result = resolve_within("/bogus/prefix/proj/Cargo.toml", WD).unwrap();
    assert_eq!(result, "/home/user/proj/Cargo.toml");
}

#[test]
fn recovers_bare_wd_via_basename() {
    let result = resolve_within("/bogus/proj", WD).unwrap();
    assert_eq!(result, WD);
}

#[test]
fn rejects_unrecoverable_absolute_path() {
    let err = resolve_within("/etc/passwd", WD).unwrap_err();
    assert!(err.contains("escapes working directory"));
}

#[test]
fn rejects_escape_via_dotdot_even_with_basename_in_suffix() {
    let err = resolve_within("../../proj/evil", WD).unwrap_err();
    assert!(err.contains("escapes working directory"));
}

#[test]
fn escape_message_names_wd_and_request() {
    let err = resolve_within("../x", WD).unwrap_err();
    assert_eq!(err, "path escapes working directory '/home/user/proj': ../x");
}

#[test]
fn fallback_refuses_suffix_that_climbs_out() {
    let err = resolve_within("/other/proj/../../x", WD).unwrap_err();
    assert!(err.contains("escapes working directory"));
}

#[test]
fn parent_of_root_stays_at_root_inside_wd() {
    let result = resolve_within("/../home/user/proj/a", WD).unwrap();
    assert_eq!(result, "/home/user/proj/a");
}

#[test]
fn wd_with_trailing_slash_joins_once() {
    let result = resolve_within("a/b", "/w/").unwrap();
    assert_eq!(result, "/w/a/b");
}

#[test]
fn resolve_path_joins_relative_only() {
    assert_eq!(resolve_path("/etc/x", "/w"), "/etc/x");
    assert_eq!(resolve_path("a/b", "/w"), "/w/a/b");
    assert_eq!(resolve_path("a", "/w/"), "/w/a");
}
