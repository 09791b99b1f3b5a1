use check_external_types::config::{AllowedTypeError, AllowedTypeMatch, Config};
use check_external_types::glob::glob_matches;

fn config_with_patterns(patterns: &[&str]) -> Config {
    let mut config = Config::default();
    for p in patterns {
        config.allowed_external_types.push(String::from(*p));
    }
    config
}

#[test]
fn deserialize_config() {
    // The configuration a file with `allow_std = false` and two glob
    // patterns deserializes into.
    let mut config = config_with_patterns(&["test::*", "another_test::something::*::something"]);
    config.allow_std = false;
    assert!(config.allow_alloc);
    assert!(config.allow_core);
    assert!(!config.allow_std);
    assert!(glob_matches(
        config.allowed_external_types[0].as_str(),
        "test::something"
    ));
    assert!(!glob_matches(
        config.allowed_external_types[0].as_str(),
        "other::something"
    ));
    assert!(glob_matches(
        config.allowed_external_types[1].as_str(),
        "another_test::something::foo::something"
    ));
    assert!(!glob_matches(
        config.allowed_external_types[1].as_str(),
        "another_test::other::foo::something"
    ));
}

#[test]
fn deserialize_config_multiple_allow() {
    let config = config_with_patterns(&["test::*", "test::*", "another_test::*", "*::foo"]);
    assert_eq!(
        config.allows_type("root", "test::thing"),
        Err(AllowedTypeError::DuplicateMatches(vec![
            String::from("test::*"),
            String::from("test::*"),
        ]))
    );
    assert_eq!(
        config.allows_type("root", "another_test::foo"),
        Err(AllowedTypeError::DuplicateMatches(vec![
            String::from("another_test::*"),
            String::from("*::foo"),
        ]))
    );
}

#[test]
fn test_allows_type() {
    let config = config_with_patterns(&["one::*", "two::*"]);
    assert_eq!(
        config.allows_type("root", "alloc::System"),
        Ok(AllowedTypeMatch::StandardLibrary("alloc"))
    );
    assert_eq!(
        config.allows_type("root", "std::vec::Vec"),
        Ok(AllowedTypeMatch::StandardLibrary("std"))
    );
    assert_eq!(
        config.allows_type("root", "std::path::Path"),
        Ok(AllowedTypeMatch::StandardLibrary("std"))
    );

    assert_eq!(
        config.allows_type("root", "root::thing"),
        Ok(AllowedTypeMatch::RootMatch)
    );

    assert_eq!(
        config.allows_type("other_root", "root::thing"),
        Err(AllowedTypeError::NoMatchFound)
    );

    assert_eq!(
        config.allows_type("root", "one::thing"),
        Ok(AllowedTypeMatch::WildcardMatch(String::from("one::*")))
    );
    assert_eq!(
        config.allows_type("root", "two::thing"),
        Ok(AllowedTypeMatch::WildcardMatch(String::from("two::*")))
    );
    assert_eq!(
        config.allows_type("root", "three::thing"),
        Err(AllowedTypeError::NoMatchFound)
    );
}

#[test]
fn base_library_gating_is_never_silent() {
    // With a gate off, the base library's types classify as an error even if
    // a glob pattern would have matched them.
    let mut config = config_with_patterns(&["std::*", "core::*", "alloc::*"]);
    config.allow_std = false;
    config.allow_core = false;
    config.allow_alloc = false;
    assert_eq!(
        config.allows_type("root", "std::vec::Vec"),
        Err(AllowedTypeError::StandardLibraryNotAllowed("std"))
    );
    assert_eq!(
        config.allows_type("root", "core::option::Option"),
        Err(AllowedTypeError::StandardLibraryNotAllowed("core"))
    );
    assert_eq!(
        config.allows_type("root", "alloc::sync::Arc"),
        Err(AllowedTypeError::StandardLibraryNotAllowed("alloc"))
    );
}

#[test]
fn root_match_wins_over_everything() {
    // A name whose leading segment is the root library's classifies as the
    // root, whatever the configuration says.
    let mut config = config_with_patterns(&["root::*"]);
    config.allow_std = false;
    assert_eq!(
        config.allows_type("root", "root::inner::Thing"),
        Ok(AllowedTypeMatch::RootMatch)
    );
    // Even when the root library is itself named like a base library.
    assert_eq!(
        config.allows_type("std", "std::vec::Vec"),
        Ok(AllowedTypeMatch::RootMatch)
    );
}

#[test]
fn default_config_values() {
    let config = Config::default();
    assert!(config.allow_alloc);
    assert!(config.allow_core);
    assert!(config.allow_std);
    assert!(config.allowed_external_types.is_empty());
    assert!(check_external_types::config::default_allow_std());
}
