use check_external_types::glob::glob_matches;

#[test]
fn literal_match_is_exact_and_case_sensitive() {
    assert!(glob_matches("serde::Value", "serde::Value"));
    assert!(!glob_matches("serde::Value", "serde::value"));
    assert!(!glob_matches("serde::Value", "serde::Values"));
    assert!(!glob_matches("serde::Values", "serde::Value"));
}

#[test]
fn star_matches_any_run_including_separators() {
    assert!(glob_matches("test::*", "test::something"));
    assert!(glob_matches("test::*", "test::deeply::nested::thing"));
    assert!(!glob_matches("test::*", "other::something"));
    assert!(glob_matches("*", "anything::at::all"));
    assert!(glob_matches("*", ""));
}

#[test]
fn star_matches_empty_run() {
    assert!(glob_matches("a*b", "ab"));
    assert!(glob_matches("a*", "a"));
    assert!(glob_matches("*a", "a"));
}

#[test]
fn inner_star_segments() {
    assert!(glob_matches(
        "another_test::something::*::something",
        "another_test::something::foo::something"
    ));
    assert!(!glob_matches(
        "another_test::something::*::something",
        "another_test::other::foo::something"
    ));
    assert!(glob_matches("*::foo", "another_test::foo"));
    assert!(!glob_matches("*::foo", "foo"));
}

#[test]
fn multiple_stars() {
    assert!(glob_matches("a*b*c", "a-x-b-y-c"));
    assert!(glob_matches("a*b*c", "abc"));
    assert!(!glob_matches("a*b*c", "acb"));
}

#[test]
fn empty_pattern_matches_only_empty() {
    assert!(glob_matches("", ""));
    assert!(!glob_matches("", "a"));
}
