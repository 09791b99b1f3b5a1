use check_external_types::config::Config;
use check_external_types::error::{ErrorLocation, ValidationError, ValidationErrors};
use check_external_types::graph::{
    Crate, Enum, Function, FunctionSignature, GenericArg, GenericArgs, Generics, Impl, Item,
    ItemEnum, ItemSummary, Module, PathRef, ReExport, Span, Struct, StructKind, Trait, Type,
    Variant, VariantKind, Visibility,
};
use check_external_types::visitor::Visitor;

fn empty_generics() -> Generics {
    Generics {
        params: Vec::new(),
        where_predicates: Vec::new(),
    }
}

fn mk_span(line: usize) -> Span {
    Span {
        filename: String::from("src/lib.rs"),
        begin: (line, 0),
        end: (line, 10),
    }
}

fn root_module(name: &str, items: Vec<u32>) -> Item {
    Item {
        id: 0,
        crate_id: 0,
        name: Some(String::from(name)),
        span: None,
        visibility: Visibility::Public,
        inner: ItemEnum::Module(Module {
            is_crate: true,
            items,
        }),
    }
}

fn summary(id: u32, segments: &[&str]) -> ItemSummary {
    ItemSummary {
        id,
        path: segments.iter().map(|s| String::from(*s)).collect(),
    }
}

fn ext_ref(id: u32) -> Type {
    Type::ResolvedPath(PathRef { id, args: None })
}

fn fn_item(id: u32, name: &str, arg_name: &str, arg_ty: Type) -> Item {
    Item {
        id,
        crate_id: 0,
        name: Some(String::from(name)),
        span: Some(mk_span(3)),
        visibility: Visibility::Public,
        inner: ItemEnum::Function(Function {
            sig: FunctionSignature {
                inputs: vec![(String::from(arg_name), arg_ty)],
                output: None,
            },
            generics: empty_generics(),
        }),
    }
}

fn run(config: Config, package: Crate) -> ValidationErrors {
    Visitor::new(config, package).unwrap().visit_all().unwrap()
}

fn config_with_patterns(patterns: &[&str]) -> Config {
    let mut config = Config::default();
    for p in patterns {
        config.allowed_external_types.push(String::from(*p));
    }
    config
}

/// Scenario: `pub fn f(x: external::Foo)` with an empty allow-list.
fn scenario_fn_arg_graph() -> Crate {
    Crate {
        root: 0,
        index: vec![
            root_module("my_lib", vec![1]),
            fn_item(1, "f", "x", ext_ref(100)),
        ],
        paths: vec![summary(100, &["external", "Foo"])],
    }
}

#[test]
fn scenario_unapproved_fn_argument() {
    let errors = run(Config::default(), scenario_fn_arg_graph());
    assert_eq!(errors.error_count(), 1);
    assert_eq!(errors.warning_count(), 0);
    let list = errors.iter();
    assert_eq!(list.len(), 1);
    match &list[0] {
        ValidationError::UnapprovedExternalTypeRef {
            fq_name,
            what,
            in_what_type,
            location,
            ..
        } => {
            assert_eq!(fq_name, "external::Foo");
            assert!(matches!(what, ErrorLocation::ArgumentNamed(n) if n == "x"));
            assert_eq!(in_what_type, "my_lib::f");
            assert!(location.is_some());
        }
        other => panic!("unexpected finding: {:?}", other),
    }
}

#[test]
fn scenario_allow_list_covers_reference() {
    let errors = run(config_with_patterns(&["external::*"]), scenario_fn_arg_graph());
    assert!(errors.is_empty());
    assert_eq!(errors.error_count(), 0);
    assert_eq!(errors.warning_count(), 0);
}

#[test]
fn scenario_duplicate_patterns() {
    let errors = run(
        config_with_patterns(&["external::*", "external::*"]),
        scenario_fn_arg_graph(),
    );
    assert_eq!(errors.error_count(), 0);
    assert_eq!(errors.warning_count(), 1);
    let list = errors.iter();
    match &list[0] {
        ValidationError::DuplicateApproved {
            fq_name, duplicate, ..
        } => {
            assert_eq!(fq_name, "external::Foo");
            assert_eq!(
                duplicate,
                &vec![String::from("external::*"), String::from("external::*")]
            );
        }
        other => panic!("unexpected finding: {:?}", other),
    }
}

#[test]
fn scenario_duplicates_in_either_order() {
    // Duplicate detection does not depend on pattern order; the finding
    // lists all matching patterns either way.
    for patterns in [["a::*", "*::b"], ["*::b", "a::*"]] {
        let errors = run(
            config_with_patterns(&patterns),
            Crate {
                root: 0,
                index: vec![
                    root_module("my_lib", vec![1]),
                    fn_item(1, "f", "x", ext_ref(100)),
                ],
                paths: vec![summary(100, &["a", "b"])],
            },
        );
        assert_eq!(errors.warning_count(), 1);
        match &errors.iter()[0] {
            ValidationError::DuplicateApproved { duplicate, .. } => {
                assert_eq!(duplicate.len(), 2);
                assert!(duplicate.contains(&String::from("a::*")));
                assert!(duplicate.contains(&String::from("*::b")));
            }
            other => panic!("unexpected finding: {:?}", other),
        }
    }
}

#[test]
fn scenario_unused_pattern_reported_once() {
    let errors = run(config_with_patterns(&["never::*"]), scenario_fn_arg_graph());
    // One error for the unapproved reference, one warning for the pattern
    // that never matched anything.
    assert_eq!(errors.error_count(), 1);
    assert_eq!(errors.warning_count(), 1);
    let unused: Vec<_> = errors
        .iter()
        .iter()
        .filter(|e| matches!(e, ValidationError::UnusedApprovalPattern { .. }))
        .collect();
    assert_eq!(unused.len(), 1);
    match unused[0] {
        ValidationError::UnusedApprovalPattern { fq_name } => assert_eq!(fq_name, "never::*"),
        _ => unreachable!(),
    }
}

#[test]
fn scenario_stripped_fields() {
    let package = Crate {
        root: 0,
        index: vec![
            root_module("my_lib", vec![1]),
            Item {
                id: 1,
                crate_id: 0,
                name: Some(String::from("SomeStructWithStrippedFields")),
                span: Some(mk_span(7)),
                visibility: Visibility::Public,
                inner: ItemEnum::Struct(Struct {
                    kind: StructKind::Plain {
                        fields: vec![2],
                        has_stripped_fields: true,
                    },
                    generics: empty_generics(),
                    impls: Vec::new(),
                }),
            },
            Item {
                id: 2,
                crate_id: 0,
                name: Some(String::from("public_field")),
                span: Some(mk_span(8)),
                visibility: Visibility::Public,
                inner: ItemEnum::StructField(Type::Primitive(String::from("i32"))),
            },
        ],
        paths: Vec::new(),
    };
    let errors = run(Config::default(), package);
    assert_eq!(errors.error_count(), 0);
    assert_eq!(errors.warning_count(), 1);
    match &errors.iter()[0] {
        ValidationError::FieldsStripped { fq_name } => {
            assert_eq!(fq_name, "my_lib::SomeStructWithStrippedFields");
        }
        other => panic!("unexpected finding: {:?}", other),
    }
}

fn enum_with_variant_graph(enum_visibility: Visibility) -> Crate {
    Crate {
        root: 0,
        index: vec![
            root_module("my_lib", vec![1]),
            Item {
                id: 1,
                crate_id: 0,
                name: Some(String::from("Choice")),
                span: Some(mk_span(4)),
                visibility: enum_visibility,
                inner: ItemEnum::Enum(Enum {
                    generics: empty_generics(),
                    variants: vec![2],
                    impls: Vec::new(),
                }),
            },
            Item {
                id: 2,
                crate_id: 0,
                name: Some(String::from("External")),
                span: Some(mk_span(5)),
                visibility: Visibility::Default,
                inner: ItemEnum::Variant(Variant {
                    kind: VariantKind::Tuple(vec![Some(3)]),
                }),
            },
            Item {
                id: 3,
                crate_id: 0,
                name: Some(String::from("0")),
                span: Some(mk_span(5)),
                visibility: Visibility::Default,
                inner: ItemEnum::StructField(ext_ref(100)),
            },
        ],
        paths: vec![summary(100, &["external", "Foo"])],
    }
}

#[test]
fn variant_under_public_enum_is_visited() {
    let errors = run(Config::default(), enum_with_variant_graph(Visibility::Public));
    assert_eq!(errors.error_count(), 1);
    match &errors.iter()[0] {
        ValidationError::UnapprovedExternalTypeRef { fq_name, .. } => {
            assert_eq!(fq_name, "external::Foo");
        }
        other => panic!("unexpected finding: {:?}", other),
    }
}

#[test]
fn variant_under_private_enum_is_not_visited() {
    let errors = run(
        Config::default(),
        enum_with_variant_graph(Visibility::Default),
    );
    assert!(errors.is_empty());
}

fn reexport_graph(extra_index: Vec<Item>) -> Crate {
    let mut index = vec![
        root_module("my_lib", vec![1]),
        Item {
            id: 1,
            crate_id: 0,
            name: Some(String::from("Foo")),
            span: Some(mk_span(2)),
            visibility: Visibility::Public,
            inner: ItemEnum::ReExport(ReExport {
                name: String::from("Foo"),
                source: String::from("hidden_mod::inner::Foo"),
                id: Some(200),
            }),
        },
    ];
    index.extend(extra_index);
    Crate {
        root: 0,
        index,
        paths: Vec::new(),
    }
}

#[test]
fn scenario_hidden_module_names_first_unindexed_segment() {
    let errors = run(Config::default(), reexport_graph(Vec::new()));
    assert_eq!(errors.error_count(), 0);
    assert_eq!(errors.warning_count(), 1);
    match &errors.iter()[0] {
        ValidationError::HiddenModule {
            fq_name,
            hidden_module,
            ..
        } => {
            assert_eq!(fq_name, "Foo");
            assert_eq!(hidden_module.as_deref(), Some("hidden_mod"));
        }
        other => panic!("unexpected finding: {:?}", other),
    }
}

#[test]
fn hidden_module_skips_indexed_segments() {
    // When the first segment names an indexed item, the next unindexed
    // segment is blamed instead.
    let named_mod = Item {
        id: 50,
        crate_id: 0,
        name: Some(String::from("hidden_mod")),
        span: None,
        visibility: Visibility::Default,
        inner: ItemEnum::Other,
    };
    let errors = run(Config::default(), reexport_graph(vec![named_mod]));
    match &errors.iter()[0] {
        ValidationError::HiddenModule { hidden_module, .. } => {
            assert_eq!(hidden_module.as_deref(), Some("inner"));
        }
        other => panic!("unexpected finding: {:?}", other),
    }
}

#[test]
fn reexported_private_item_is_examined() {
    // A private struct behind a public re-export is public in effect: its
    // public field leaks the external type.
    let package = Crate {
        root: 0,
        index: vec![
            root_module("my_lib", vec![1]),
            Item {
                id: 1,
                crate_id: 0,
                name: Some(String::from("Hidden")),
                span: Some(mk_span(2)),
                visibility: Visibility::Public,
                inner: ItemEnum::ReExport(ReExport {
                    name: String::from("Hidden"),
                    source: String::from("inner::Hidden"),
                    id: Some(2),
                }),
            },
            Item {
                id: 2,
                crate_id: 0,
                name: Some(String::from("Hidden")),
                span: Some(mk_span(9)),
                visibility: Visibility::Default,
                inner: ItemEnum::Struct(Struct {
                    kind: StructKind::Plain {
                        fields: vec![3],
                        has_stripped_fields: false,
                    },
                    generics: empty_generics(),
                    impls: Vec::new(),
                }),
            },
            Item {
                id: 3,
                crate_id: 0,
                name: Some(String::from("leak")),
                span: Some(mk_span(10)),
                visibility: Visibility::Public,
                inner: ItemEnum::StructField(ext_ref(100)),
            },
        ],
        paths: vec![summary(100, &["external", "Foo"])],
    };
    let errors = run(Config::default(), package);
    assert_eq!(errors.error_count(), 1);
}

#[test]
fn reexported_external_shadow_is_not_examined() {
    // A re-exported external type present in the index as a shadow copy: the
    // shadow is skipped by module iteration, and the re-export does not
    // descend into the external item's innards.
    let package = Crate {
        root: 0,
        index: vec![
            root_module("my_lib", vec![1, 2]),
            Item {
                id: 1,
                crate_id: 0,
                name: Some(String::from("Foo")),
                span: Some(mk_span(2)),
                visibility: Visibility::Public,
                inner: ItemEnum::ReExport(ReExport {
                    name: String::from("Foo"),
                    source: String::from("external::Foo"),
                    id: Some(2),
                }),
            },
            Item {
                id: 2,
                crate_id: 7,
                name: Some(String::from("Foo")),
                span: None,
                visibility: Visibility::Public,
                inner: ItemEnum::Struct(Struct {
                    kind: StructKind::Plain {
                        fields: vec![3],
                        has_stripped_fields: false,
                    },
                    generics: empty_generics(),
                    impls: Vec::new(),
                }),
            },
            Item {
                id: 3,
                crate_id: 7,
                name: Some(String::from("inner_leak")),
                span: None,
                visibility: Visibility::Public,
                inner: ItemEnum::StructField(ext_ref(100)),
            },
        ],
        paths: vec![summary(100, &["another", "Bar"])],
    };
    let errors = run(Config::default(), package);
    assert!(errors.is_empty());
}

#[test]
fn hidden_item_warning_for_unresolvable_reference() {
    // The referenced identifier is in neither the index nor the path table.
    let package = Crate {
        root: 0,
        index: vec![
            root_module("my_lib", vec![1]),
            fn_item(1, "g", "x", ext_ref(300)),
        ],
        paths: Vec::new(),
    };
    let errors = run(Config::default(), package);
    assert_eq!(errors.error_count(), 0);
    assert_eq!(errors.warning_count(), 1);
    match &errors.iter()[0] {
        ValidationError::HiddenItem { in_what_type, .. } => {
            assert_eq!(in_what_type, "my_lib::g");
        }
        other => panic!("unexpected finding: {:?}", other),
    }
}

#[test]
fn base_library_reference_respects_gate() {
    let package = || Crate {
        root: 0,
        index: vec![
            root_module("my_lib", vec![1]),
            fn_item(1, "f", "v", ext_ref(100)),
        ],
        paths: vec![summary(100, &["std", "vec", "Vec"])],
    };
    let errors = run(Config::default(), package());
    assert!(errors.is_empty());

    let mut config = Config::default();
    config.allow_std = false;
    let errors = run(config, package());
    assert_eq!(errors.error_count(), 1);
    match &errors.iter()[0] {
        ValidationError::UnapprovedExternalTypeRef { fq_name, .. } => {
            assert_eq!(fq_name, "std::vec::Vec");
        }
        other => panic!("unexpected finding: {:?}", other),
    }
}

#[test]
fn root_crate_references_are_never_findings() {
    let package = Crate {
        root: 0,
        index: vec![
            root_module("my_lib", vec![1]),
            fn_item(1, "f", "x", ext_ref(100)),
        ],
        paths: vec![summary(100, &["my_lib", "Thing"])],
    };
    let errors = run(Config::default(), package);
    assert!(errors.is_empty());
}

#[test]
fn pattern_type_aborts_the_run() {
    let package = Crate {
        root: 0,
        index: vec![
            root_module("my_lib", vec![1]),
            fn_item(1, "f", "x", Type::Pat),
        ],
        paths: Vec::new(),
    };
    let result = Visitor::new(Config::default(), package).unwrap().visit_all();
    assert!(matches!(
        result,
        Err(check_external_types::visitor::Fault::UnsupportedConstruct(_))
    ));
}

#[test]
fn missing_root_is_a_fault() {
    let package = Crate {
        root: 99,
        index: vec![root_module("my_lib", Vec::new())],
        paths: Vec::new(),
    };
    assert!(matches!(
        Visitor::new(Config::default(), package),
        Err(check_external_types::visitor::Fault::MissingRoot)
    ));
}

fn impl_with_assoc_type_graph(trait_visibility: Visibility, is_blanket: bool) -> Crate {
    Crate {
        root: 0,
        index: vec![
            root_module("my_lib", vec![1, 4]),
            Item {
                id: 1,
                crate_id: 0,
                name: Some(String::from("Subject")),
                span: Some(mk_span(3)),
                visibility: Visibility::Public,
                inner: ItemEnum::Struct(Struct {
                    kind: StructKind::Unit,
                    generics: empty_generics(),
                    impls: vec![2],
                }),
            },
            Item {
                id: 2,
                crate_id: 0,
                name: None,
                span: Some(mk_span(5)),
                visibility: Visibility::Default,
                inner: ItemEnum::Impl(Impl {
                    is_blanket,
                    trait_ref: Some(PathRef { id: 4, args: None }),
                    generics: empty_generics(),
                    items: vec![3],
                }),
            },
            Item {
                id: 3,
                crate_id: 0,
                name: Some(String::from("Something")),
                span: Some(mk_span(6)),
                visibility: Visibility::Default,
                inner: ItemEnum::AssocType {
                    generics: empty_generics(),
                    bounds: Vec::new(),
                    assigned_ty: Some(ext_ref(100)),
                },
            },
            Item {
                id: 4,
                crate_id: 0,
                name: Some(String::from("WithAssoc")),
                span: Some(mk_span(1)),
                visibility: trait_visibility,
                inner: ItemEnum::Trait(Trait {
                    items: Vec::new(),
                    generics: empty_generics(),
                    bounds: Vec::new(),
                }),
            },
        ],
        paths: vec![summary(100, &["external", "Foo"])],
    }
}

#[test]
fn assoc_type_in_impl_of_public_trait_is_checked() {
    let errors = run(
        Config::default(),
        impl_with_assoc_type_graph(Visibility::Public, false),
    );
    assert_eq!(errors.error_count(), 1);
    match &errors.iter()[0] {
        ValidationError::UnapprovedExternalTypeRef { fq_name, what, .. } => {
            assert_eq!(fq_name, "external::Foo");
            assert!(matches!(what, ErrorLocation::AssocType));
        }
        other => panic!("unexpected finding: {:?}", other),
    }
}

#[test]
fn impl_of_private_trait_is_skipped() {
    let errors = run(
        Config::default(),
        impl_with_assoc_type_graph(Visibility::Default, false),
    );
    assert!(errors.is_empty());
}

#[test]
fn blanket_impl_is_skipped() {
    let errors = run(
        Config::default(),
        impl_with_assoc_type_graph(Visibility::Public, true),
    );
    assert!(errors.is_empty());
}

#[test]
fn generic_arguments_are_traversed() {
    // `pub fn f(x: Wrapper<external::Foo>)` where `Wrapper` is the root
    // library's own type: the wrapper passes, the argument inside it is
    // flagged.
    let wrapped = Type::ResolvedPath(PathRef {
        id: 200,
        args: Some(Box::new(GenericArgs::AngleBracketed {
            args: vec![GenericArg::Type(ext_ref(100))],
            constraints: Vec::new(),
        })),
    });
    let package = Crate {
        root: 0,
        index: vec![
            root_module("my_lib", vec![1]),
            fn_item(1, "f", "x", wrapped),
        ],
        paths: vec![
            summary(100, &["external", "Foo"]),
            summary(200, &["my_lib", "Wrapper"]),
        ],
    };
    let errors = run(Config::default(), package);
    assert_eq!(errors.error_count(), 1);
    match &errors.iter()[0] {
        ValidationError::UnapprovedExternalTypeRef { fq_name, what, .. } => {
            assert_eq!(fq_name, "external::Foo");
            assert!(matches!(what, ErrorLocation::GenericArg));
        }
        other => panic!("unexpected finding: {:?}", other),
    }
}

#[test]
fn colliding_sort_keys_collapse_findings() {
    // The sort key doubles as the finding's identity: an unused-pattern
    // warning whose text equals the path of a stripped-fields warning
    // collapses into it, and the first finding collected wins.
    let package = Crate {
        root: 0,
        index: vec![
            root_module("my_lib", vec![1]),
            Item {
                id: 1,
                crate_id: 0,
                name: Some(String::from("S")),
                span: Some(mk_span(7)),
                visibility: Visibility::Public,
                inner: ItemEnum::Struct(Struct {
                    kind: StructKind::Plain {
                        fields: Vec::new(),
                        has_stripped_fields: true,
                    },
                    generics: empty_generics(),
                    impls: Vec::new(),
                }),
            },
        ],
        paths: Vec::new(),
    };
    let errors = run(config_with_patterns(&["my_lib::S"]), package);
    assert_eq!(errors.warning_count(), 1);
    assert!(matches!(
        &errors.iter()[0],
        ValidationError::FieldsStripped { .. }
    ));
}

#[test]
fn findings_are_ordered_by_position() {
    // Two unapproved references in one file report in line order.
    let mk_fn = |id: u32, name: &str, line: usize, target: u32| Item {
        id,
        crate_id: 0,
        name: Some(String::from(name)),
        span: Some(mk_span(line)),
        visibility: Visibility::Public,
        inner: ItemEnum::Function(Function {
            sig: FunctionSignature {
                inputs: vec![(String::from("x"), ext_ref(target))],
                output: None,
            },
            generics: empty_generics(),
        }),
    };
    let package = Crate {
        root: 0,
        index: vec![
            root_module("my_lib", vec![1, 2]),
            mk_fn(1, "later", 9, 100),
            mk_fn(2, "earlier", 2, 101),
        ],
        paths: vec![
            summary(100, &["external", "Foo"]),
            summary(101, &["external", "Bar"]),
        ],
    };
    let errors = run(Config::default(), package);
    assert_eq!(errors.error_count(), 2);
    let list = errors.iter();
    assert_eq!(list[0].fq_name(), "external::Bar");
    assert_eq!(list[1].fq_name(), "external::Foo");
}
