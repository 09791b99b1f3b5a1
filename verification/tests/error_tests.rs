use check_external_types::error::{
    ErrorLevel, ErrorLocation, ErrorPrinter, ValidationError, ValidationErrors,
};
use check_external_types::graph::Span;

fn span(file: &str, line: usize, col: usize) -> Span {
    Span {
        filename: String::from(file),
        begin: (line, col),
        end: (line, col + 1),
    }
}

fn unapproved(name: &str, file: &str, line: usize, col: usize) -> ValidationError {
    let sp = span(file, line, col);
    ValidationError::unapproved_external_type_ref(
        String::from(name),
        &ErrorLocation::ArgumentNamed(String::from("x")),
        String::from("my_lib::f"),
        Some(&sp),
    )
}

#[test]
fn severity_levels() {
    let e = unapproved("external::Foo", "src/lib.rs", 3, 1);
    assert!(matches!(e.level(), ErrorLevel::Error));
    let w = ValidationError::unused_approval_pattern(String::from("never::*"));
    assert!(matches!(w.level(), ErrorLevel::Warning));
}

#[test]
fn sort_key_shape() {
    let e = unapproved("external::Foo", "src/lib.rs", 3, 1);
    assert_eq!(
        e.sort_key(),
        "src/lib.rs:0000003:0000001:external::Foo:argument named `x` of:my_lib::f"
    );
    let w = ValidationError::unused_approval_pattern(String::from("never::*"));
    assert_eq!(w.sort_key(), "never::*");
    let h = ValidationError::hidden_item(
        &ErrorLocation::ReturnValue,
        String::from("my_lib::g"),
        None,
    );
    assert_eq!(h.sort_key(), "none");
}

#[test]
fn errors_sorted_and_deduplicated() {
    let mut errors = ValidationErrors::new();
    assert!(errors.is_empty());
    errors.add(unapproved("b::B", "src/z.rs", 1, 1));
    errors.add(unapproved("a::A", "src/a.rs", 9, 9));
    // Same sort key as the first one: collapses into it.
    errors.add(unapproved("b::B", "src/z.rs", 1, 1));
    assert_eq!(errors.error_count(), 2);
    assert_eq!(errors.warning_count(), 0);
    let list = errors.iter();
    assert_eq!(list.len(), 2);
    assert_eq!(list[0].fq_name(), "a::A");
    assert_eq!(list[1].fq_name(), "b::B");
    assert!(!errors.is_empty());
}

#[test]
fn counts_split_by_level() {
    let mut errors = ValidationErrors::new();
    errors.add(unapproved("a::A", "src/a.rs", 1, 1));
    errors.add(ValidationError::unused_approval_pattern(String::from(
        "never::*",
    )));
    errors.add(ValidationError::unused_approval_pattern(String::from(
        "other::*",
    )));
    assert_eq!(errors.error_count(), 1);
    assert_eq!(errors.warning_count(), 2);
}

#[test]
fn headline_and_subtext_rendering() {
    let e = unapproved("external::Foo", "src/lib.rs", 3, 1);
    assert_eq!(
        e.fmt_headline(),
        "Unapproved external type `external::Foo` referenced in public API"
    );
    assert_eq!(e.subtext(), "in argument named `x` of `my_lib::f`");

    let w = ValidationError::unused_approval_pattern(String::from("never::*"));
    assert_eq!(
        w.fmt_headline(),
        "Approved external type `never::*` wasn't referenced in public API"
    );
    assert_eq!(w.subtext(), "");

    let sp = span("src/lib.rs", 5, 0);
    let d = ValidationError::duplicate_approved(
        String::from("external::Foo"),
        &ErrorLocation::ReturnValue,
        String::from("my_lib::f"),
        Some(&sp),
        vec![String::from("external::*"), String::from("*::Foo")],
    );
    assert_eq!(
        d.fmt_headline(),
        "External type `external::Foo` is allowed multiple times:\n Allowed patterns:\n    - external::*\n    - *::Foo"
    );
    assert_eq!(d.subtext(), "in return value of `my_lib::f`");
}

#[test]
fn fq_name_fallback() {
    let h = ValidationError::hidden_item(
        &ErrorLocation::ReturnValue,
        String::from("my_lib::g"),
        None,
    );
    assert_eq!(h.fq_name(), "N/A");
    assert!(h.location().is_none());
}

#[test]
fn location_accessor() {
    let e = unapproved("external::Foo", "src/lib.rs", 3, 1);
    let loc = e.location().unwrap();
    assert_eq!(loc.filename, "src/lib.rs");
    assert_eq!(loc.begin, (3, 1));
}

#[test]
fn position_from_line_col_scan() {
    let contents = "ab\ncd";
    // Line 1 is 1-based in both coordinates.
    assert_eq!(ErrorPrinter::position_from_line_col(contents, 1, 1), Some(0));
    assert_eq!(ErrorPrinter::position_from_line_col(contents, 1, 2), Some(1));
    // After a newline the column counter restarts at zero.
    assert_eq!(ErrorPrinter::position_from_line_col(contents, 2, 0), Some(3));
    assert_eq!(ErrorPrinter::position_from_line_col(contents, 2, 1), Some(4));
    assert_eq!(ErrorPrinter::position_from_line_col(contents, 3, 1), None);
    assert_eq!(ErrorPrinter::position_from_line_col("", 1, 1), None);
}

#[test]
fn printer_cache() {
    let mut printer = ErrorPrinter::new(String::from("/workspace"));
    assert!(printer.get_cached("src/lib.rs").is_none());
    printer.insert_cached(String::from("src/lib.rs"), String::from("contents"));
    assert_eq!(printer.get_cached("src/lib.rs").unwrap(), "contents");
    assert!(printer.get_cached("src/other.rs").is_none());
}

#[test]
fn markdown_rows_filtered_and_sorted() {
    let mut errors = ValidationErrors::new();
    errors.add(unapproved("zeta::Z", "src/b.rs", 4, 2));
    errors.add(unapproved("alpha::A", "src/a.rs", 1, 0));
    errors.add(ValidationError::unused_approval_pattern(String::from(
        "never::*",
    )));
    let rows = errors.markdown_rows();
    assert_eq!(
        rows,
        vec![
            String::from("| alpha | alpha::A | src/a.rs:1:0 |"),
            String::from("| zeta | zeta::Z | src/b.rs:4:2 |"),
        ]
    );
}
