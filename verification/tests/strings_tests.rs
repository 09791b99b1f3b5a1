use check_external_types::strings::{
    join_path, leading_segment, split_path, str_eq, str_lt, usize_to_dec, usize_to_dec_pad7,
};

#[test]
fn leading_segment_basics() {
    assert_eq!(leading_segment("external::Foo"), "external");
    assert_eq!(leading_segment("nosep"), "nosep");
    assert_eq!(leading_segment("a::b::c"), "a");
    assert_eq!(leading_segment(""), "");
    assert_eq!(leading_segment("::leading"), "");
}

#[test]
fn split_and_join_roundtrip() {
    let parts = split_path("a::b::c");
    assert_eq!(parts, vec!["a", "b", "c"]);
    assert_eq!(join_path(&parts), "a::b::c");

    let parts = split_path("single");
    assert_eq!(parts, vec!["single"]);

    let parts = split_path("a::::b");
    assert_eq!(parts, vec!["a", "", "b"]);

    let parts = split_path("::");
    assert_eq!(parts, vec!["", ""]);
}

#[test]
fn join_empty_and_single() {
    let empty: Vec<String> = Vec::new();
    assert_eq!(join_path(&empty), "");
    assert_eq!(join_path(&vec![String::from("x")]), "x");
}

#[test]
fn string_equality_and_order() {
    assert!(str_eq("abc", "abc"));
    assert!(!str_eq("abc", "abd"));
    assert!(!str_eq("abc", "ab"));
    assert!(str_lt("abc", "abd"));
    assert!(str_lt("ab", "abc"));
    assert!(!str_lt("abc", "abc"));
    assert!(!str_lt("b", "a"));
    assert!(str_lt("", "a"));
}

#[test]
fn decimal_rendering() {
    assert_eq!(usize_to_dec(0), "0");
    assert_eq!(usize_to_dec(7), "7");
    assert_eq!(usize_to_dec(12345), "12345");
    assert_eq!(usize_to_dec_pad7(42), "0000042");
    assert_eq!(usize_to_dec_pad7(0), "0000000");
    assert_eq!(usize_to_dec_pad7(12345678), "12345678");
}
