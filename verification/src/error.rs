//! The error model: typed findings with severity, a derived total-order sort
//! key used both for deterministic output ordering and for deduplication, and
//! rendering of headlines and subtexts. Two findings with equal sort keys
//! collapse into one — a behavior kept for compatibility with the derived-key
//! identity this design inherits, even though two semantically distinct
//! findings could in principle collide.

use vstd::prelude::*;

use crate::graph::{opt_span_field_view, opt_span_view, Span, SpanV};
use crate::strings::{
    lemma_lex_irrefl, lemma_lex_lt_trans, lemma_lex_trichotomy, lex_lt, pad7_of, str_eq, str_lt,
    usize_to_dec_pad7,
};
use vstd::multiset::Multiset;
use vstd::string::StringSliceAdditionalSpecFns;

verus! {

/// Where the finding occurred relative to the traversal path: the specific
/// piece of the last item that referenced the offending type.
#[derive(Debug, PartialEq, Eq)]
pub enum ErrorLocation {
    AssocType,
    ArgumentNamed(String),
    ClosureInput,
    ClosureOutput,
    ConstGeneric,
    Constant,
    DynTrait,
    EnumTupleEntry,
    GenericArg,
    GenericDefaultBinding,
    ImplementedTrait,
    QualifiedSelfType,
    QualifiedSelfTypeAsTrait,
    ReExport,
    ReturnValue,
    Static,
    StructField,
    TraitBound,
    TypeAlias,
    WhereBound,
}

/// The mathematical view of an [`ErrorLocation`].
pub ghost enum ErrorLocationV {
    AssocType,
    ArgumentNamed(Seq<char>),
    ClosureInput,
    ClosureOutput,
    ConstGeneric,
    Constant,
    DynTrait,
    EnumTupleEntry,
    GenericArg,
    GenericDefaultBinding,
    ImplementedTrait,
    QualifiedSelfType,
    QualifiedSelfTypeAsTrait,
    ReExport,
    ReturnValue,
    Static,
    StructField,
    TraitBound,
    TypeAlias,
    WhereBound,
}

impl View for ErrorLocation {
    type V = ErrorLocationV;

    open spec fn view(&self) -> ErrorLocationV {
        match self {
            ErrorLocation::AssocType => ErrorLocationV::AssocType,
            ErrorLocation::ArgumentNamed(name) => ErrorLocationV::ArgumentNamed(name@),
            ErrorLocation::ClosureInput => ErrorLocationV::ClosureInput,
            ErrorLocation::ClosureOutput => ErrorLocationV::ClosureOutput,
            ErrorLocation::ConstGeneric => ErrorLocationV::ConstGeneric,
            ErrorLocation::Constant => ErrorLocationV::Constant,
            ErrorLocation::DynTrait => ErrorLocationV::DynTrait,
            ErrorLocation::EnumTupleEntry => ErrorLocationV::EnumTupleEntry,
            ErrorLocation::GenericArg => ErrorLocationV::GenericArg,
            ErrorLocation::GenericDefaultBinding => ErrorLocationV::GenericDefaultBinding,
            ErrorLocation::ImplementedTrait => ErrorLocationV::ImplementedTrait,
            ErrorLocation::QualifiedSelfType => ErrorLocationV::QualifiedSelfType,
            ErrorLocation::QualifiedSelfTypeAsTrait => ErrorLocationV::QualifiedSelfTypeAsTrait,
            ErrorLocation::ReExport => ErrorLocationV::ReExport,
            ErrorLocation::ReturnValue => ErrorLocationV::ReturnValue,
            ErrorLocation::Static => ErrorLocationV::Static,
            ErrorLocation::StructField => ErrorLocationV::StructField,
            ErrorLocation::TraitBound => ErrorLocationV::TraitBound,
            ErrorLocation::TypeAlias => ErrorLocationV::TypeAlias,
            ErrorLocation::WhereBound => ErrorLocationV::WhereBound,
        }
    }
}

/// The display text of an error location.
pub open spec fn location_render(w: ErrorLocationV) -> Seq<char> {
    match w {
        ErrorLocationV::AssocType => "associated type"@,
        ErrorLocationV::ArgumentNamed(name) => "argument named `"@ + name + "` of"@,
        ErrorLocationV::ClosureInput => "closure input of"@,
        ErrorLocationV::ClosureOutput => "closure output of"@,
        ErrorLocationV::ConstGeneric => "const generic of"@,
        ErrorLocationV::Constant => "constant"@,
        ErrorLocationV::DynTrait => "dyn trait of"@,
        ErrorLocationV::EnumTupleEntry => "enum tuple entry of"@,
        ErrorLocationV::GenericArg => "generic arg of"@,
        ErrorLocationV::GenericDefaultBinding => "generic default binding of"@,
        ErrorLocationV::ImplementedTrait => "implemented trait of"@,
        ErrorLocationV::QualifiedSelfType => "qualified self type"@,
        ErrorLocationV::QualifiedSelfTypeAsTrait => "qualified type `as` trait"@,
        ErrorLocationV::ReExport => "re-export named"@,
        ErrorLocationV::ReturnValue => "return value of"@,
        ErrorLocationV::Static => "static value"@,
        ErrorLocationV::StructField => "struct field of"@,
        ErrorLocationV::TraitBound => "trait bound of"@,
        ErrorLocationV::TypeAlias => "type alias of"@,
        ErrorLocationV::WhereBound => "where bound of"@,
    }
}

impl ErrorLocation {
    /// An exact copy of this location.
    pub fn duplicate(&self) -> (r: ErrorLocation)
        ensures
            r@ == self@,
    {
        match self {
            ErrorLocation::AssocType => ErrorLocation::AssocType,
            ErrorLocation::ArgumentNamed(name) => ErrorLocation::ArgumentNamed(name.clone()),
            ErrorLocation::ClosureInput => ErrorLocation::ClosureInput,
            ErrorLocation::ClosureOutput => ErrorLocation::ClosureOutput,
            ErrorLocation::ConstGeneric => ErrorLocation::ConstGeneric,
            ErrorLocation::Constant => ErrorLocation::Constant,
            ErrorLocation::DynTrait => ErrorLocation::DynTrait,
            ErrorLocation::EnumTupleEntry => ErrorLocation::EnumTupleEntry,
            ErrorLocation::GenericArg => ErrorLocation::GenericArg,
            ErrorLocation::GenericDefaultBinding => ErrorLocation::GenericDefaultBinding,
            ErrorLocation::ImplementedTrait => ErrorLocation::ImplementedTrait,
            ErrorLocation::QualifiedSelfType => ErrorLocation::QualifiedSelfType,
            ErrorLocation::QualifiedSelfTypeAsTrait => ErrorLocation::QualifiedSelfTypeAsTrait,
            ErrorLocation::ReExport => ErrorLocation::ReExport,
            ErrorLocation::ReturnValue => ErrorLocation::ReturnValue,
            ErrorLocation::Static => ErrorLocation::Static,
            ErrorLocation::StructField => ErrorLocation::StructField,
            ErrorLocation::TraitBound => ErrorLocation::TraitBound,
            ErrorLocation::TypeAlias => ErrorLocation::TypeAlias,
            ErrorLocation::WhereBound => ErrorLocation::WhereBound,
        }
    }

    /// Renders the location for error messages.
    pub fn render(&self) -> (r: String)
        ensures
            r@ == location_render(self@),
    {
        match self {
            ErrorLocation::AssocType => String::from_str("associated type"),
            ErrorLocation::ArgumentNamed(name) => {
                let mut s = String::from_str("argument named `");
                s.append(name.as_str());
                s.append("` of");
                s
            },
            ErrorLocation::ClosureInput => String::from_str("closure input of"),
            ErrorLocation::ClosureOutput => String::from_str("closure output of"),
            ErrorLocation::ConstGeneric => String::from_str("const generic of"),
            ErrorLocation::Constant => String::from_str("constant"),
            ErrorLocation::DynTrait => String::from_str("dyn trait of"),
            ErrorLocation::EnumTupleEntry => String::from_str("enum tuple entry of"),
            ErrorLocation::GenericArg => String::from_str("generic arg of"),
            ErrorLocation::GenericDefaultBinding => String::from_str("generic default binding of"),
            ErrorLocation::ImplementedTrait => String::from_str("implemented trait of"),
            ErrorLocation::QualifiedSelfType => String::from_str("qualified self type"),
            ErrorLocation::QualifiedSelfTypeAsTrait => String::from_str(
                "qualified type `as` trait",
            ),
            ErrorLocation::ReExport => String::from_str("re-export named"),
            ErrorLocation::ReturnValue => String::from_str("return value of"),
            ErrorLocation::Static => String::from_str("static value"),
            ErrorLocation::StructField => String::from_str("struct field of"),
            ErrorLocation::TraitBound => String::from_str("trait bound of"),
            ErrorLocation::TypeAlias => String::from_str("type alias of"),
            ErrorLocation::WhereBound => String::from_str("where bound of"),
        }
    }
}

/// Severity of a finding. Only `Error` findings fail a run.
#[derive(Clone, Copy, Debug, PartialEq, Eq, Structural)]
pub enum ErrorLevel {
    Error,
    Warning,
}

/// A finding reported to the user.
#[derive(Debug)]
pub enum ValidationError {
    /// An external type leaks through the public interface surface and no
    /// allowance covers it.
    UnapprovedExternalTypeRef {
        fq_name: String,
        what: ErrorLocation,
        in_what_type: String,
        location: Option<Span>,
        sort_key: String,
    },
    /// A struct declares doc-hidden fields, which cannot be checked.
    FieldsStripped { fq_name: String },
    /// A re-export's path runs through a doc-hidden module.
    HiddenModule {
        fq_name: String,
        what: ErrorLocation,
        in_what_type: String,
        location: Option<Span>,
        hidden_module: Option<String>,
    },
    /// A referenced item is absent from both the index and the path table.
    HiddenItem {
        what: ErrorLocation,
        in_what_type: String,
        location: Option<Span>,
        sort_key: String,
    },
    /// A configured pattern never matched any checked reference.
    UnusedApprovalPattern { fq_name: String },
    /// Two or more configured patterns matched the same reference.
    DuplicateApproved {
        fq_name: String,
        what: ErrorLocation,
        in_what_type: String,
        location: Option<Span>,
        duplicate: Vec<String>,
        sort_key: String,
    },
}

/// The mathematical view of a [`ValidationError`].
pub ghost enum ValidationErrorV {
    UnapprovedExternalTypeRef {
        fq_name: Seq<char>,
        what: ErrorLocationV,
        in_what_type: Seq<char>,
        location: Option<SpanV>,
        sort_key: Seq<char>,
    },
    FieldsStripped { fq_name: Seq<char> },
    HiddenModule {
        fq_name: Seq<char>,
        what: ErrorLocationV,
        in_what_type: Seq<char>,
        location: Option<SpanV>,
        hidden_module: Option<Seq<char>>,
    },
    HiddenItem {
        what: ErrorLocationV,
        in_what_type: Seq<char>,
        location: Option<SpanV>,
        sort_key: Seq<char>,
    },
    UnusedApprovalPattern { fq_name: Seq<char> },
    DuplicateApproved {
        fq_name: Seq<char>,
        what: ErrorLocationV,
        in_what_type: Seq<char>,
        location: Option<SpanV>,
        duplicate: Seq<Seq<char>>,
        sort_key: Seq<char>,
    },
}

/// The view of an optional owned string.
pub open spec fn opt_string_view(s: Option<String>) -> Option<Seq<char>> {
    match s {
        Some(v) => Some(v@),
        None => None,
    }
}

impl View for ValidationError {
    type V = ValidationErrorV;

    open spec fn view(&self) -> ValidationErrorV {
        match self {
            ValidationError::UnapprovedExternalTypeRef {
                fq_name,
                what,
                in_what_type,
                location,
                sort_key,
            } => ValidationErrorV::UnapprovedExternalTypeRef {
                fq_name: fq_name@,
                what: what@,
                in_what_type: in_what_type@,
                location: opt_span_field_view(*location),
                sort_key: sort_key@,
            },
            ValidationError::FieldsStripped { fq_name } => ValidationErrorV::FieldsStripped {
                fq_name: fq_name@,
            },
            ValidationError::HiddenModule {
                fq_name,
                what,
                in_what_type,
                location,
                hidden_module,
            } => ValidationErrorV::HiddenModule {
                fq_name: fq_name@,
                what: what@,
                in_what_type: in_what_type@,
                location: opt_span_field_view(*location),
                hidden_module: opt_string_view(*hidden_module),
            },
            ValidationError::HiddenItem { what, in_what_type, location, sort_key } => (
            ValidationErrorV::HiddenItem {
                what: what@,
                in_what_type: in_what_type@,
                location: opt_span_field_view(*location),
                sort_key: sort_key@,
            }),
            ValidationError::UnusedApprovalPattern { fq_name } => (
            ValidationErrorV::UnusedApprovalPattern { fq_name: fq_name@ }),
            ValidationError::DuplicateApproved {
                fq_name,
                what,
                in_what_type,
                location,
                duplicate,
                sort_key,
            } => ValidationErrorV::DuplicateApproved {
                fq_name: fq_name@,
                what: what@,
                in_what_type: in_what_type@,
                location: opt_span_field_view(*location),
                duplicate: duplicate.deep_view(),
                sort_key: sort_key@,
            },
        }
    }
}

/// The position prefix of a sort key: `file:line:col` with the line and
/// column zero-padded, or `none` when the finding carries no span.
pub open spec fn location_sort_key_v(location: Option<SpanV>) -> Seq<char> {
    match location {
        Some(l) => l.filename + seq![':'] + pad7_of(l.begin.0 as nat) + seq![':'] + pad7_of(
            l.begin.1 as nat,
        ),
        None => "none"@,
    }
}

/// The full sort key of span-carrying findings:
/// `file:line:col:name:location:path`.
pub open spec fn full_sort_key_v(
    location: Option<SpanV>,
    fq_name: Seq<char>,
    what: ErrorLocationV,
    in_what_type: Seq<char>,
) -> Seq<char> {
    location_sort_key_v(location) + seq![':'] + fq_name + seq![':'] + location_render(what)
        + seq![':'] + in_what_type
}

/// The derived total-order sort key of a finding, which doubles as its
/// identity for deduplication.
pub open spec fn spec_sort_key(v: ValidationErrorV) -> Seq<char> {
    match v {
        ValidationErrorV::UnapprovedExternalTypeRef { sort_key, .. } => sort_key,
        ValidationErrorV::FieldsStripped { fq_name } => fq_name,
        ValidationErrorV::HiddenModule { fq_name, .. } => fq_name,
        ValidationErrorV::HiddenItem { sort_key, .. } => sort_key,
        ValidationErrorV::UnusedApprovalPattern { fq_name } => fq_name,
        ValidationErrorV::DuplicateApproved { sort_key, .. } => sort_key,
    }
}

/// The severity of a finding.
pub open spec fn spec_level(v: ValidationErrorV) -> ErrorLevel {
    match v {
        ValidationErrorV::UnapprovedExternalTypeRef { .. } => ErrorLevel::Error,
        _ => ErrorLevel::Warning,
    }
}

/// Renders `file:line:col` (zero-padded) for a sort key, or `none`.
pub fn location_sort_key(location: Option<&Span>) -> (r: String)
    ensures
        r@ == location_sort_key_v(opt_span_view(location)),
{
    match location {
        Some(l) => {
            let mut s = l.filename.clone();
            s.append(":");
            let line = usize_to_dec_pad7(l.begin.0);
            s.append(line.as_str());
            s.append(":");
            let col = usize_to_dec_pad7(l.begin.1);
            s.append(col.as_str());
            proof {
                reveal_strlit(":");
                assert(":"@ =~= seq![':']);
                assert(s@ =~= location_sort_key_v(opt_span_view(location)));
            }
            s
        },
        None => String::from_str("none"),
    }
}

fn full_sort_key(
    location: Option<&Span>,
    fq_name: &str,
    what: &ErrorLocation,
    in_what_type: &str,
) -> (r: String)
    ensures
        r@ == full_sort_key_v(opt_span_view(location), fq_name@, what@, in_what_type@),
{
    let mut s = location_sort_key(location);
    s.append(":");
    s.append(fq_name);
    s.append(":");
    let w = what.render();
    s.append(w.as_str());
    s.append(":");
    s.append(in_what_type);
    proof {
        reveal_strlit(":");
        assert(":"@ =~= seq![':']);
        assert(s@ =~= full_sort_key_v(opt_span_view(location), fq_name@, what@, in_what_type@));
    }
    s
}

impl ValidationError {
    /// A finding for an unapproved external type reference. Constructing one
    /// without a span degrades its output to a `none` position prefix; the
    /// caller is expected to supply one whenever the graph offers it.
    pub fn unapproved_external_type_ref(
        fq_name: String,
        what: &ErrorLocation,
        in_what_type: String,
        location: Option<&Span>,
    ) -> (r: Self)
        ensures
            r@ == (ValidationErrorV::UnapprovedExternalTypeRef {
                fq_name: fq_name@,
                what: what@,
                in_what_type: in_what_type@,
                location: opt_span_view(location),
                sort_key: full_sort_key_v(opt_span_view(location), fq_name@, what@, in_what_type@),
            }),
    {
        let sort_key = full_sort_key(location, fq_name.as_str(), what, in_what_type.as_str());
        ValidationError::UnapprovedExternalTypeRef {
            fq_name,
            what: what.duplicate(),
            in_what_type,
            location: crate::graph::duplicate_opt_span(location),
            sort_key,
        }
    }

    /// A warning for a struct whose doc-hidden fields cannot be checked.
    pub fn fields_stripped(path: &crate::path::Path) -> (r: Self)
        ensures
            r@ == (ValidationErrorV::FieldsStripped {
                fq_name: crate::strings::join_sep(crate::path::path_names(path@)),
            }),
    {
        ValidationError::FieldsStripped { fq_name: path.render() }
    }

    /// A warning for a re-export whose path runs through a doc-hidden module.
    pub fn hidden_module(
        fq_name: String,
        what: &ErrorLocation,
        in_what_type: String,
        location: Option<&Span>,
        hidden_module: Option<String>,
    ) -> (r: Self)
        ensures
            r@ == (ValidationErrorV::HiddenModule {
                fq_name: fq_name@,
                what: what@,
                in_what_type: in_what_type@,
                location: opt_span_view(location),
                hidden_module: opt_string_view(hidden_module),
            }),
    {
        ValidationError::HiddenModule {
            fq_name,
            what: what.duplicate(),
            in_what_type,
            location: crate::graph::duplicate_opt_span(location),
            hidden_module,
        }
    }

    /// A warning for a reference to an item that cannot be resolved or named.
    pub fn hidden_item(
        what: &ErrorLocation,
        in_what_type: String,
        location: Option<&Span>,
    ) -> (r: Self)
        ensures
            r@ == (ValidationErrorV::HiddenItem {
                what: what@,
                in_what_type: in_what_type@,
                location: opt_span_view(location),
                sort_key: location_sort_key_v(opt_span_view(location)),
            }),
    {
        let sort_key = location_sort_key(location);
        ValidationError::HiddenItem {
            what: what.duplicate(),
            in_what_type,
            location: crate::graph::duplicate_opt_span(location),
            sort_key,
        }
    }

    /// A warning for a configured pattern that never matched.
    pub fn unused_approval_pattern(fq_name: String) -> (r: Self)
        ensures
            r@ == (ValidationErrorV::UnusedApprovalPattern { fq_name: fq_name@ }),
    {
        ValidationError::UnusedApprovalPattern { fq_name }
    }

    /// A warning for a reference matched by two or more patterns at once.
    pub fn duplicate_approved(
        fq_name: String,
        what: &ErrorLocation,
        in_what_type: String,
        location: Option<&Span>,
        duplicate: Vec<String>,
    ) -> (r: Self)
        ensures
            r@ == (ValidationErrorV::DuplicateApproved {
                fq_name: fq_name@,
                what: what@,
                in_what_type: in_what_type@,
                location: opt_span_view(location),
                duplicate: duplicate.deep_view(),
                sort_key: full_sort_key_v(opt_span_view(location), fq_name@, what@, in_what_type@),
            }),
    {
        let sort_key = full_sort_key(location, fq_name.as_str(), what, in_what_type.as_str());
        ValidationError::DuplicateApproved {
            fq_name,
            what: what.duplicate(),
            in_what_type,
            location: crate::graph::duplicate_opt_span(location),
            duplicate,
            sort_key,
        }
    }

    /// The severity of this finding.
    pub fn level(&self) -> (r: ErrorLevel)
        ensures
            r == spec_level(self@),
    {
        match self {
            ValidationError::UnapprovedExternalTypeRef { .. } => ErrorLevel::Error,
            ValidationError::HiddenModule { .. } => ErrorLevel::Warning,
            ValidationError::HiddenItem { .. } => ErrorLevel::Warning,
            ValidationError::FieldsStripped { .. } => ErrorLevel::Warning,
            ValidationError::UnusedApprovalPattern { .. } => ErrorLevel::Warning,
            ValidationError::DuplicateApproved { .. } => ErrorLevel::Warning,
        }
    }

    /// The fully-qualified name the finding is about, or `N/A` for findings
    /// about unresolvable items.
    pub fn fq_name(&self) -> (r: &str)
        ensures
            r@ == spec_fq_name(self@),
    {
        match self {
            ValidationError::UnapprovedExternalTypeRef { fq_name, .. } => fq_name.as_str(),
            ValidationError::HiddenModule { fq_name, .. } => fq_name.as_str(),
            ValidationError::FieldsStripped { fq_name } => fq_name.as_str(),
            ValidationError::UnusedApprovalPattern { fq_name } => fq_name.as_str(),
            ValidationError::DuplicateApproved { fq_name, .. } => fq_name.as_str(),
            ValidationError::HiddenItem { .. } => "N/A",
        }
    }

    /// The source span the finding points at, if it carries one.
    pub fn location(&self) -> (r: Option<&Span>)
        ensures
            opt_span_view(r) == spec_location(self@),
    {
        match self {
            ValidationError::UnapprovedExternalTypeRef { location, .. } => match location {
                Some(l) => Some(l),
                None => None,
            },
            ValidationError::HiddenModule { location, .. } => match location {
                Some(l) => Some(l),
                None => None,
            },
            ValidationError::HiddenItem { location, .. } => match location {
                Some(l) => Some(l),
                None => None,
            },
            ValidationError::DuplicateApproved { location, .. } => match location {
                Some(l) => Some(l),
                None => None,
            },
            ValidationError::FieldsStripped { .. } => None,
            ValidationError::UnusedApprovalPattern { .. } => None,
        }
    }

    /// The derived sort key: ordering and identity of this finding.
    pub fn sort_key(&self) -> (r: &str)
        ensures
            r@ == spec_sort_key(self@),
    {
        match self {
            ValidationError::UnapprovedExternalTypeRef { sort_key, .. } => sort_key.as_str(),
            ValidationError::DuplicateApproved { sort_key, .. } => sort_key.as_str(),
            ValidationError::FieldsStripped { fq_name } => fq_name.as_str(),
            ValidationError::HiddenModule { fq_name, .. } => fq_name.as_str(),
            ValidationError::UnusedApprovalPattern { fq_name } => fq_name.as_str(),
            ValidationError::HiddenItem { sort_key, .. } => sort_key.as_str(),
        }
    }
}

/// The fully-qualified name a finding reports, `N/A` when it has none.
pub open spec fn spec_fq_name(v: ValidationErrorV) -> Seq<char> {
    match v {
        ValidationErrorV::UnapprovedExternalTypeRef { fq_name, .. } => fq_name,
        ValidationErrorV::HiddenModule { fq_name, .. } => fq_name,
        ValidationErrorV::FieldsStripped { fq_name } => fq_name,
        ValidationErrorV::UnusedApprovalPattern { fq_name } => fq_name,
        ValidationErrorV::DuplicateApproved { fq_name, .. } => fq_name,
        ValidationErrorV::HiddenItem { .. } => "N/A"@,
    }
}

/// The span a finding carries, if any.
pub open spec fn spec_location(v: ValidationErrorV) -> Option<SpanV> {
    match v {
        ValidationErrorV::UnapprovedExternalTypeRef { location, .. } => location,
        ValidationErrorV::HiddenModule { location, .. } => location,
        ValidationErrorV::HiddenItem { location, .. } => location,
        ValidationErrorV::DuplicateApproved { location, .. } => location,
        ValidationErrorV::FieldsStripped { .. } => None,
        ValidationErrorV::UnusedApprovalPattern { .. } => None,
    }
}

/// The bulleted list of patterns in a duplicate-approval headline.
pub open spec fn dup_list_render(ds: Seq<Seq<char>>) -> Seq<char>
    decreases ds.len(),
{
    if ds.len() == 0 {
        Seq::empty()
    } else {
        dup_list_render(ds.drop_last()) + "\n    - "@ + ds.last()
    }
}

/// The one-line headline of a finding.
pub open spec fn spec_headline(v: ValidationErrorV) -> Seq<char> {
    match v {
        ValidationErrorV::UnapprovedExternalTypeRef { fq_name, .. } => (
        "Unapproved external type `"@ + fq_name + "` referenced in public API"@),
        ValidationErrorV::HiddenModule { fq_name, hidden_module, .. } => (
        "Module path for reexported type `"@ + fq_name + "` contains a doc-hidden module \""@ + (
        match hidden_module {
            Some(m) => m,
            None => "???"@,
        }) + "\". Types declared in this module cannot be checked for external types"@),
        ValidationErrorV::HiddenItem { what, in_what_type, .. } => (location_render(what) + " "@
            + in_what_type
            + " references a hidden item. Doc-hidden items cannot be checked for external types"@),
        ValidationErrorV::FieldsStripped { fq_name } => ("Fields on `"@ + fq_name
            + "` marked doc-hidden cannot be checked for external types"@),
        ValidationErrorV::UnusedApprovalPattern { fq_name } => ("Approved external type `"@
            + fq_name + "` wasn't referenced in public API"@),
        ValidationErrorV::DuplicateApproved { fq_name, duplicate, .. } => ("External type `"@
            + fq_name + "` is allowed multiple times:\n Allowed patterns:"@ + dup_list_render(
            duplicate,
        )),
    }
}

/// The optional `in <location> <path>` subtext of a finding; empty for the
/// finding kinds that carry no location context.
pub open spec fn spec_subtext(v: ValidationErrorV) -> Seq<char> {
    match v {
        ValidationErrorV::UnapprovedExternalTypeRef { what, in_what_type, .. } => ("in "@
            + location_render(what) + " `"@ + in_what_type + "`"@),
        ValidationErrorV::HiddenModule { what, in_what_type, .. } => ("in "@ + location_render(
            what,
        ) + " `"@ + in_what_type + "`"@),
        ValidationErrorV::HiddenItem { what, in_what_type, .. } => ("in "@ + location_render(what)
            + " `"@ + in_what_type + "`"@),
        ValidationErrorV::DuplicateApproved { what, in_what_type, .. } => ("in "@
            + location_render(what) + " `"@ + in_what_type + "`"@),
        ValidationErrorV::FieldsStripped { .. } => Seq::empty(),
        ValidationErrorV::UnusedApprovalPattern { .. } => Seq::empty(),
    }
}

fn render_subtext_parts(what: &ErrorLocation, in_what_type: &str) -> (r: String)
    ensures
        r@ == "in "@ + location_render(what@) + " `"@ + in_what_type@ + "`"@,
{
    let mut s = String::from_str("in ");
    let w = what.render();
    s.append(w.as_str());
    s.append(" `");
    s.append(in_what_type);
    s.append("`");
    proof {
        assert(s@ =~= "in "@ + location_render(what@) + " `"@ + in_what_type@ + "`"@);
    }
    s
}

impl ValidationError {
    /// Renders the one-line headline of this finding.
    pub fn fmt_headline(&self) -> (r: String)
        ensures
            r@ == spec_headline(self@),
    {
        match self {
            ValidationError::UnapprovedExternalTypeRef { fq_name, .. } => {
                let mut s = String::from_str("Unapproved external type `");
                s.append(fq_name.as_str());
                s.append("` referenced in public API");
                proof {
                    assert(s@ =~= spec_headline(self@));
                }
                s
            },
            ValidationError::HiddenModule { fq_name, hidden_module, .. } => {
                let mut s = String::from_str("Module path for reexported type `");
                s.append(fq_name.as_str());
                s.append("` contains a doc-hidden module \"");
                match hidden_module {
                    Some(m) => s.append(m.as_str()),
                    None => s.append("???"),
                }
                s.append("\". Types declared in this module cannot be checked for external types");
                proof {
                    assert(s@ =~= spec_headline(self@));
                }
                s
            },
            ValidationError::HiddenItem { what, in_what_type, .. } => {
                let mut s = what.render();
                s.append(" ");
                s.append(in_what_type.as_str());
                s.append(
                    " references a hidden item. Doc-hidden items cannot be checked for external types",
                );
                proof {
                    assert(s@ =~= spec_headline(self@));
                }
                s
            },
            ValidationError::FieldsStripped { fq_name } => {
                let mut s = String::from_str("Fields on `");
                s.append(fq_name.as_str());
                s.append("` marked doc-hidden cannot be checked for external types");
                proof {
                    assert(s@ =~= spec_headline(self@));
                }
                s
            },
            ValidationError::UnusedApprovalPattern { fq_name } => {
                let mut s = String::from_str("Approved external type `");
                s.append(fq_name.as_str());
                s.append("` wasn't referenced in public API");
                proof {
                    assert(s@ =~= spec_headline(self@));
                }
                s
            },
            ValidationError::DuplicateApproved { fq_name, duplicate, .. } => {
                let mut s = String::from_str("External type `");
                s.append(fq_name.as_str());
                s.append("` is allowed multiple times:\n Allowed patterns:");
                let ghost prefix = s@;
                let mut i: usize = 0;
                proof {
                    assert(duplicate.deep_view().take(0) =~~= Seq::<Seq<char>>::empty());
                }
                while i < duplicate.len()
                    invariant
                        i <= duplicate@.len(),
                        duplicate.deep_view().len() == duplicate@.len(),
                        s@ == prefix + dup_list_render(duplicate.deep_view().take(i as int)),
                    decreases duplicate@.len() - i,
                {
                    s.append("\n    - ");
                    s.append(duplicate[i].as_str());
                    proof {
                        let dv = duplicate.deep_view();
                        assert(dv.take(i + 1).drop_last() =~~= dv.take(i as int));
                        assert(dv.take(i + 1).last() == dv[i as int]);
                        assert(dv[i as int] == duplicate@[i as int]@);
                        assert(s@ =~= prefix + dup_list_render(dv.take(i + 1)));
                    }
                    i += 1;
                }
                proof {
                    assert(duplicate.deep_view().take(duplicate@.len() as int) =~~= (
                    duplicate.deep_view()));
                    assert(s@ =~= spec_headline(self@));
                }
                s
            },
        }
    }

    /// Renders the `in <location> <path>` subtext, or an empty string for
    /// finding kinds without location context.
    pub fn subtext(&self) -> (r: String)
        ensures
            r@ == spec_subtext(self@),
    {
        match self {
            ValidationError::UnapprovedExternalTypeRef { what, in_what_type, .. } => (
            render_subtext_parts(what, in_what_type.as_str())),
            ValidationError::HiddenModule { what, in_what_type, .. } => render_subtext_parts(
                what,
                in_what_type.as_str(),
            ),
            ValidationError::HiddenItem { what, in_what_type, .. } => render_subtext_parts(
                what,
                in_what_type.as_str(),
            ),
            ValidationError::DuplicateApproved { what, in_what_type, .. } => render_subtext_parts(
                what,
                in_what_type.as_str(),
            ),
            ValidationError::FieldsStripped { .. } => String::new(),
            ValidationError::UnusedApprovalPattern { .. } => String::new(),
        }
    }
}

/// Strict sortedness by sort key: the order is total and keys are distinct.
pub open spec fn sorted_distinct(s: Seq<ValidationErrorV>) -> bool {
    forall|i: int, j: int|
        #![trigger spec_sort_key(s[i]), spec_sort_key(s[j])]
        0 <= i < j < s.len() ==> lex_lt(spec_sort_key(s[i]), spec_sort_key(s[j]))
}

/// Insertion into a key-sorted sequence: a finding whose key is already
/// present is dropped (the first-inserted finding wins), otherwise it lands
/// at its ordered position.
pub open spec fn sorted_insert(s: Seq<ValidationErrorV>, e: ValidationErrorV) -> Seq<
    ValidationErrorV,
>
    decreases s.len(),
{
    if s.len() == 0 {
        seq![e]
    } else if lex_lt(spec_sort_key(e), spec_sort_key(s[0])) {
        seq![e] + s
    } else if spec_sort_key(e) == spec_sort_key(s[0]) {
        s
    } else {
        seq![s[0]] + sorted_insert(s.drop_first(), e)
    }
}

/// Whether some finding in `s` already carries the key of `e`.
pub open spec fn has_key_of(s: Seq<ValidationErrorV>, e: ValidationErrorV) -> bool {
    exists|j: int| 0 <= j < s.len() && spec_sort_key(#[trigger] s[j]) == spec_sort_key(e)
}

/// Whether some finding in `s` carries the sort key `k`.
pub open spec fn has_key(s: Seq<ValidationErrorV>, k: Seq<char>) -> bool {
    exists|j: int| 0 <= j < s.len() && spec_sort_key(#[trigger] s[j]) == k
}

/// `has_key` said through membership instead of indices.
pub proof fn lemma_has_key_contains(s: Seq<ValidationErrorV>, k: Seq<char>)
    ensures
        has_key(s, k) <==> exists|x: ValidationErrorV| #[trigger]
            s.contains(x) && spec_sort_key(x) == k,
{
    if has_key(s, k) {
        let j = choose|j: int| 0 <= j < s.len() && spec_sort_key(#[trigger] s[j]) == k;
        assert(s.contains(s[j]) && spec_sort_key(s[j]) == k);
    }
    if exists|x: ValidationErrorV| #[trigger] s.contains(x) && spec_sort_key(x) == k {
        let x = choose|x: ValidationErrorV| #[trigger] s.contains(x) && spec_sort_key(x) == k;
        let j = choose|j: int| 0 <= j < s.len() && (#[trigger] s[j]) == x;
        assert(spec_sort_key(s[j]) == k);
    }
}

/// What `sorted_insert` does: it preserves strict sortedness, keeps every
/// old finding, adds nothing but `e`, and adds `e` exactly when its key is
/// not already present.
pub proof fn lemma_sorted_insert_props(s: Seq<ValidationErrorV>, e: ValidationErrorV)
    requires
        sorted_distinct(s),
    ensures
        sorted_distinct(sorted_insert(s, e)),
        forall|x: ValidationErrorV| #[trigger]
            sorted_insert(s, e).contains(x) ==> (s.contains(x) || x == e),
        forall|x: ValidationErrorV| #[trigger] s.contains(x) ==> sorted_insert(s, e).contains(x),
        has_key_of(s, e) ==> sorted_insert(s, e) == s,
        !has_key_of(s, e) ==> sorted_insert(s, e).contains(e),
        !has_key_of(s, e) ==> sorted_insert(s, e).len() == s.len() + 1,
        has_key_of(s, e) ==> sorted_insert(s, e).len() == s.len(),
    decreases s.len(),
{
    let out = sorted_insert(s, e);
    let ke = spec_sort_key(e);
    if s.len() == 0 {
        assert(out =~= seq![e]);
        assert(out[0] == e);
        assert(out.contains(e));
    } else {
        let k0 = spec_sort_key(s[0]);
        if lex_lt(ke, k0) {
            assert(out =~= seq![e] + s);
            assert(out[0] == e);
            assert(out.contains(e));
            assert forall|x: ValidationErrorV| #[trigger]
                out.contains(x) implies (s.contains(x) || x == e) by {
                let i = choose|i: int| 0 <= i < out.len() && out[i] == x;
                if i > 0 {
                    assert(s[i - 1] == x);
                }
            }
            assert forall|x: ValidationErrorV| #[trigger] s.contains(x) implies out.contains(
                x,
            ) by {
                let i = choose|i: int| 0 <= i < s.len() && s[i] == x;
                assert(out[i + 1] == x);
            }
            assert forall|i: int, j: int|
                0 <= i < j < out.len() implies lex_lt(
                #[trigger] spec_sort_key(out[i]),
                #[trigger] spec_sort_key(out[j]),
            ) by {
                if i == 0 {
                    if j > 1 {
                        assert(lex_lt(k0, spec_sort_key(s[j - 1])));
                        lemma_lex_lt_trans(ke, k0, spec_sort_key(s[j - 1]));
                    }
                } else {
                    assert(lex_lt(spec_sort_key(s[i - 1]), spec_sort_key(s[j - 1])));
                }
            }
            if has_key_of(s, e) {
                let j = choose|j: int| 0 <= j < s.len() && spec_sort_key(s[j]) == ke;
                if j == 0 {
                    lemma_lex_irrefl(ke);
                } else {
                    assert(lex_lt(k0, spec_sort_key(s[j])));
                    lemma_lex_lt_trans(ke, k0, ke);
                    lemma_lex_irrefl(ke);
                }
            }
        } else if ke == k0 {
            assert(out == s);
            assert(spec_sort_key(s[0]) == ke);
            assert(has_key_of(s, e));
        } else {
            lemma_lex_trichotomy(ke, k0);
            assert(lex_lt(k0, ke));
            let t = s.drop_first();
            assert forall|i: int, j: int|
                0 <= i < j < t.len() implies lex_lt(
                #[trigger] spec_sort_key(t[i]),
                #[trigger] spec_sort_key(t[j]),
            ) by {
                assert(t[i] == s[i + 1]);
                assert(t[j] == s[j + 1]);
                assert(lex_lt(spec_sort_key(s[i + 1]), spec_sort_key(s[j + 1])));
            }
            lemma_sorted_insert_props(t, e);
            let sub = sorted_insert(t, e);
            assert(out =~= seq![s[0]] + sub);
            // Every element of `sub` keys strictly above s[0].
            assert forall|m: int| 0 < m < out.len() implies lex_lt(
                k0,
                spec_sort_key(#[trigger] out[m]),
            ) by {
                assert(out[m] == sub[m - 1]);
                assert(sub.contains(sub[m - 1]));
                if sub[m - 1] == e {
                } else {
                    assert(t.contains(sub[m - 1]));
                    let i = choose|i: int| 0 <= i < t.len() && t[i] == sub[m - 1];
                    assert(t[i] == s[i + 1]);
                    assert(lex_lt(spec_sort_key(s[0]), spec_sort_key(s[i + 1])));
                }
            }
            assert forall|i: int, j: int|
                0 <= i < j < out.len() implies lex_lt(
                #[trigger] spec_sort_key(out[i]),
                #[trigger] spec_sort_key(out[j]),
            ) by {
                if i == 0 {
                    assert(lex_lt(k0, spec_sort_key(out[j])));
                } else {
                    assert(out[i] == sub[i - 1]);
                    assert(out[j] == sub[j - 1]);
                    assert(lex_lt(spec_sort_key(sub[i - 1]), spec_sort_key(sub[j - 1])));
                }
            }
            assert forall|x: ValidationErrorV| #[trigger]
                out.contains(x) implies (s.contains(x) || x == e) by {
                let m = choose|m: int| 0 <= m < out.len() && out[m] == x;
                if m == 0 {
                    assert(s.contains(s[0]));
                } else {
                    assert(sub.contains(sub[m - 1]));
                    if sub[m - 1] != e {
                        assert(t.contains(sub[m - 1]));
                        let i = choose|i: int| 0 <= i < t.len() && t[i] == x;
                        assert(s[i + 1] == x);
                        assert(s.contains(s[i + 1]));
                    }
                }
            }
            assert forall|x: ValidationErrorV| #[trigger] s.contains(x) implies out.contains(
                x,
            ) by {
                let i = choose|i: int| 0 <= i < s.len() && s[i] == x;
                if i == 0 {
                    assert(out[0] == x);
                } else {
                    assert(t[i - 1] == x);
                    assert(t.contains(t[i - 1]));
                    assert(sub.contains(x));
                    let m = choose|m: int| 0 <= m < sub.len() && sub[m] == x;
                    assert(out[m + 1] == x);
                }
            }
            // Key presence transfers between s and its tail: s[0]'s key is
            // not e's key here.
            if has_key_of(s, e) {
                let j = choose|j: int| 0 <= j < s.len() && spec_sort_key(s[j]) == ke;
                assert(j > 0);
                assert(t[j - 1] == s[j]);
                assert(has_key_of(t, e));
                assert(out =~= s);
            } else {
                if has_key_of(t, e) {
                    let j = choose|j: int| 0 <= j < t.len() && spec_sort_key(t[j]) == ke;
                    assert(s[j + 1] == t[j]);
                    assert(has_key_of(s, e));
                }
                assert(sub.contains(e));
                let m = choose|m: int| 0 <= m < sub.len() && sub[m] == e;
                assert(out[m + 1] == e);
                assert(out.contains(e));
            }
        }
    }
}

/// How many findings in `s` carry severity `level`.
pub open spec fn count_level(s: Seq<ValidationErrorV>, level: ErrorLevel) -> nat
    decreases s.len(),
{
    if s.len() == 0 {
        0
    } else {
        count_level(s.drop_last(), level) + if spec_level(s.last()) == level {
            1nat
        } else {
            0nat
        }
    }
}

/// The set of findings, deduplicated by sort key and kept in key order.
#[derive(Debug)]
pub struct ValidationErrors {
    pub errors: Vec<ValidationError>,
}

impl View for ValidationErrors {
    type V = Seq<ValidationErrorV>;

    open spec fn view(&self) -> Seq<ValidationErrorV> {
        self.errors@.map_values(|e: ValidationError| e@)
    }
}

impl ValidationErrors {
    /// Whether the findings are strictly sorted by key; established by
    /// `new` and preserved by `add`.
    pub open spec fn wf(&self) -> bool {
        sorted_distinct(self@)
    }

    /// An empty set of findings.
    pub fn new() -> (r: Self)
        ensures
            r@ =~= Seq::<ValidationErrorV>::empty(),
            r.wf(),
    {
        ValidationErrors { errors: Vec::new() }
    }

    /// Adds a finding, keeping key order; a finding whose key is already
    /// present is dropped, so the first finding with a given key wins.
    pub fn add(&mut self, error: ValidationError)
        requires
            old(self).wf(),
        ensures
            final(self).wf(),
            final(self)@ == sorted_insert(old(self)@, error@),
    {
        proof {
            lemma_sorted_insert_props(old(self)@, error@);
        }
        let ghost orig = self@;
        let mut i: usize = 0;
        proof {
            assert(orig.skip(0) =~= orig);
            assert(orig.take(0) + sorted_insert(orig.skip(0), error@) =~= sorted_insert(
                orig,
                error@,
            ));
        }
        loop
            invariant
                self.wf(),
                *self == *old(self),
                orig == self@,
                i <= self.errors@.len(),
                self@.len() == self.errors@.len(),
                sorted_insert(orig, error@) =~= orig.take(i as int) + sorted_insert(
                    orig.skip(i as int),
                    error@,
                ),
                forall|j: int|
                    0 <= j < i ==> lex_lt(spec_sort_key(#[trigger] orig[j]), spec_sort_key(error@)),
            decreases self.errors@.len() - i,
        {
            if i == self.errors.len() {
                proof {
                    assert(orig.skip(i as int).len() == 0);
                    assert(sorted_insert(orig.skip(i as int), error@) =~= seq![error@]);
                }
                self.errors.push(error);
                proof {
                    assert(self@ =~= orig.push(error@));
                    assert(orig.take(orig.len() as int) =~= orig);
                    assert(self@ =~= sorted_insert(orig, error@));
                }
                return;
            }
            let cur_key = self.errors[i].sort_key();
            let new_key = error.sort_key();
            proof {
                assert(orig.skip(i as int)[0] == orig[i as int]);
                assert(orig.skip(i as int).drop_first() =~= orig.skip(i + 1));
                assert(orig[i as int] == self.errors@[i as int]@);
            }
            if str_eq(new_key, cur_key) {
                proof {
                    lemma_lex_irrefl(spec_sort_key(error@));
                    assert(sorted_insert(orig.skip(i as int), error@) =~= orig.skip(i as int));
                    assert(orig.take(i as int) + orig.skip(i as int) =~= orig);
                }
                return;
            }
            if str_lt(new_key, cur_key) {
                proof {
                    assert(sorted_insert(orig.skip(i as int), error@) =~= seq![error@] + orig.skip(
                        i as int,
                    ));
                }
                self.errors.insert(i, error);
                proof {
                    assert(self@ =~= orig.take(i as int) + seq![error@] + orig.skip(i as int));
                    assert(self@ =~= sorted_insert(orig, error@));
                    lemma_sorted_insert_props(orig, error@);
                }
                return;
            }
            proof {
                lemma_lex_trichotomy(spec_sort_key(error@), spec_sort_key(orig[i as int]));
                assert(lex_lt(spec_sort_key(orig[i as int]), spec_sort_key(error@)));
                assert(sorted_insert(orig.skip(i as int), error@) =~= seq![orig[i as int]]
                    + sorted_insert(orig.skip(i + 1), error@));
                assert(orig.take(i + 1) =~= orig.take(i as int) + seq![orig[i as int]]);
                assert(orig.take(i + 1) + sorted_insert(orig.skip(i + 1), error@) =~= orig.take(
                    i as int,
                ) + sorted_insert(orig.skip(i as int), error@));
            }
            i += 1;
        }
    }

    /// How many findings are errors.
    pub fn error_count(&self) -> (r: usize)
        ensures
            r == count_level(self@, ErrorLevel::Error),
    {
        self.count_of(ErrorLevel::Error)
    }

    /// How many findings are warnings.
    pub fn warning_count(&self) -> (r: usize)
        ensures
            r == count_level(self@, ErrorLevel::Warning),
    {
        self.count_of(ErrorLevel::Warning)
    }

    fn count_of(&self, level: ErrorLevel) -> (r: usize)
        ensures
            r == count_level(self@, level),
    {
        let mut count: usize = 0;
        let mut i: usize = 0;
        proof {
            assert(self@.take(0) =~= Seq::<ValidationErrorV>::empty());
        }
        while i < self.errors.len()
            invariant
                i <= self.errors@.len(),
                self@.len() == self.errors@.len(),
                count <= i,
                count == count_level(self@.take(i as int), level),
            decreases self.errors@.len() - i,
        {
            let l = self.errors[i].level();
            proof {
                assert(self@.take(i + 1).drop_last() =~= self@.take(i as int));
                assert(self@.take(i + 1).last() == self@[i as int]);
                assert(self@[i as int] == self.errors@[i as int]@);
            }
            if matches!(l, ErrorLevel::Error) {
                if matches!(level, ErrorLevel::Error) {
                    count += 1;
                }
            } else {
                if matches!(level, ErrorLevel::Warning) {
                    count += 1;
                }
            }
            i += 1;
        }
        proof {
            assert(self@.take(self.errors@.len() as int) =~= self@);
        }
        count
    }

    /// The findings, in sort-key order.
    pub fn iter(&self) -> (r: &Vec<ValidationError>)
        ensures
            r@.map_values(|e: ValidationError| e@) == self@,
    {
        &self.errors
    }

    /// Whether no finding was collected.
    pub fn is_empty(&self) -> (r: bool)
        ensures
            r == (self@.len() == 0),
    {
        self.errors.len() == 0
    }
}

/// The `file:line:col` cell of a tabular-report row, or `none` for a finding
/// without a span.
pub open spec fn spec_row_position(loc: Option<SpanV>) -> Seq<char> {
    match loc {
        Some(l) => l.filename + seq![':'] + crate::strings::dec_str(l.begin.0 as nat) + seq![':']
            + crate::strings::dec_str(l.begin.1 as nat),
        None => "none"@,
    }
}

/// One tabular-report row: the external type's owning library, its
/// fully-qualified name, and where it was used.
pub open spec fn spec_markdown_row(x: ValidationErrorV) -> Seq<char> {
    "| "@ + crate::strings::leading_of(spec_fq_name(x)) + " | "@ + spec_fq_name(x) + " | "@
        + spec_row_position(spec_location(x)) + " |"@
}

/// Whether a finding is an unapproved external reference.
pub open spec fn spec_is_unapproved(x: ValidationErrorV) -> bool {
    x is UnapprovedExternalTypeRef
}

/// The tabular-report rows of a finding set: one row per unapproved external
/// reference, in finding order.
pub open spec fn spec_markdown_rows(s: Seq<ValidationErrorV>) -> Seq<Seq<char>> {
    s.filter(|x: ValidationErrorV| spec_is_unapproved(x)).map_values(
        |x: ValidationErrorV| spec_markdown_row(x),
    )
}

/// Non-strict lexicographic sortedness of a row list.
pub open spec fn rows_sorted(rows: Seq<Seq<char>>) -> bool {
    forall|a: int, b: int| 0 <= a < b < rows.len() ==> !lex_lt(#[trigger] rows[b], #[trigger] rows[a])
}

fn render_row(e: &ValidationError) -> (r: String)
    ensures
        r@ == spec_markdown_row(e@),
{
    let mut s = String::from_str("| ");
    let fq = e.fq_name();
    let leading = crate::strings::leading_segment(fq);
    s.append(leading);
    s.append(" | ");
    s.append(fq);
    s.append(" | ");
    match e.location() {
        Some(l) => {
            s.append(l.filename.as_str());
            s.append(":");
            let line = crate::strings::usize_to_dec(l.begin.0);
            s.append(line.as_str());
            s.append(":");
            let col = crate::strings::usize_to_dec(l.begin.1);
            s.append(col.as_str());
        },
        None => {
            s.append("none");
        },
    }
    s.append(" |");
    proof {
        reveal_strlit(":");
        assert(":"@ =~= seq![':']);
        assert(s@ =~= spec_markdown_row(e@));
    }
    s
}

/// The position where `row` belongs in the lexicographically sorted list.
fn row_insert_pos(sorted: &Vec<String>, row: &str) -> (j: usize)
    ensures
        j <= sorted@.len(),
        forall|a: int| 0 <= a < j ==> !lex_lt(row@, #[trigger] sorted.deep_view()[a]),
        j < sorted@.len() ==> lex_lt(row@, sorted.deep_view()[j as int]),
{
    let mut j: usize = 0;
    while j < sorted.len()
        invariant
            j <= sorted@.len(),
            sorted.deep_view().len() == sorted@.len(),
            forall|a: int| 0 <= a < j ==> !lex_lt(row@, #[trigger] sorted.deep_view()[a]),
        decreases sorted@.len() - j,
    {
        proof {
            assert(sorted.deep_view()[j as int] == sorted@[j as int]@);
        }
        if crate::strings::str_lt(row, sorted[j].as_str()) {
            return j;
        }
        j += 1;
    }
    j
}

impl ValidationErrors {
    /// The rows of the tabular report: one per unapproved external
    /// reference, sorted lexicographically by full row text. A finding
    /// without a span shows `none` in place of its position.
    pub fn markdown_rows(&self) -> (r: Vec<String>)
        ensures
            r.deep_view().to_multiset() == spec_markdown_rows(self@).to_multiset(),
            rows_sorted(r.deep_view()),
    {
        broadcast use vstd::seq_lib::group_to_multiset_ensures;
        broadcast use vstd::seq_lib::lemma_multiset_commutative;

        let mut rows: Vec<String> = Vec::new();
        let mut i: usize = 0;
        proof {
            reveal(Seq::filter);
            assert(self@.take(0) =~= Seq::<ValidationErrorV>::empty());
            assert(rows.deep_view() =~~= spec_markdown_rows(self@.take(0)));
        }
        while i < self.errors.len()
            invariant
                i <= self.errors@.len(),
                self@.len() == self.errors@.len(),
                rows.deep_view() == spec_markdown_rows(self@.take(i as int)),
            decreases self.errors@.len() - i,
        {
            let is_unapproved = matches!(
                &self.errors[i],
                ValidationError::UnapprovedExternalTypeRef { .. }
            );
            if is_unapproved {
                let row = render_row(&self.errors[i]);
                let ghost old_rows = rows.deep_view();
                rows.push(row);
                proof {
                    assert(rows.deep_view() =~~= old_rows.push(row@));
                }
            }
            proof {
                reveal(Seq::filter);
                let pre = self@.take(i as int);
                let post = self@.take(i + 1);
                assert(post.drop_last() =~= pre);
                assert(post.last() == self@[i as int]);
                assert(self@[i as int] == self.errors@[i as int]@);
                let fpre = pre.filter(|x: ValidationErrorV| spec_is_unapproved(x));
                let fpost = post.filter(|x: ValidationErrorV| spec_is_unapproved(x));
                if spec_is_unapproved(self@[i as int]) {
                    assert(fpost == fpre.push(self@[i as int]));
                    assert(fpost.map_values(|x: ValidationErrorV| spec_markdown_row(x)) =~~= (
                    fpre.map_values(|x: ValidationErrorV| spec_markdown_row(x)).push(
                        spec_markdown_row(self@[i as int]),
                    )));
                } else {
                    assert(fpost == fpre);
                }
                assert(rows.deep_view() =~~= spec_markdown_rows(post));
            }
            i += 1;
        }
        proof {
            assert(self@.take(self.errors@.len() as int) =~= self@);
        }

        // Insertion sort by full row text.
        let mut sorted: Vec<String> = Vec::new();
        let mut k: usize = 0;
        while k < rows.len()
            invariant
                k <= rows@.len(),
                rows.deep_view().len() == rows@.len(),
                rows.deep_view() == spec_markdown_rows(self@),
                sorted.deep_view().to_multiset() == rows.deep_view().take(
                    k as int,
                ).to_multiset(),
                rows_sorted(sorted.deep_view()),
            decreases rows@.len() - k,
        {
            let ghost pre_sorted = sorted.deep_view();
            let row = rows[k].clone();
            let j = row_insert_pos(&sorted, row.as_str());
            sorted.insert(j, row);
            proof {
                let cur = sorted.deep_view();
                assert(cur =~~= pre_sorted.take(j as int) + seq![rows.deep_view()[k as int]]
                    + pre_sorted.skip(j as int));
                assert(pre_sorted.take(j as int) + pre_sorted.skip(j as int) =~~= pre_sorted);
                let x = rows.deep_view()[k as int];
                let front = pre_sorted.take(j as int);
                let back = pre_sorted.skip(j as int);
                assert(cur =~~= front + (seq![x] + back));
                vstd::seq_lib::lemma_multiset_commutative(front, back);
                vstd::seq_lib::lemma_multiset_commutative(front, seq![x] + back);
                vstd::seq_lib::lemma_multiset_commutative(seq![x], back);
                let es = Seq::<Seq<char>>::empty();
                es.to_multiset_ensures();
                front.to_multiset_ensures();
                back.to_multiset_ensures();
                pre_sorted.to_multiset_ensures();
                assert(es.push(x) =~~= seq![x]);
                assert(es.push(x).to_multiset() =~= es.to_multiset().insert(x));
                assert(es.to_multiset() =~= Multiset::<Seq<char>>::empty()) by {
                    es.to_multiset_ensures();
                    assert forall|v: Seq<char>| es.to_multiset().count(v) == 0 by {
                        assert(!es.contains(v));
                    }
                }
                assert(cur.to_multiset() =~= pre_sorted.to_multiset().insert(x));
                assert(rows.deep_view().take(k + 1).drop_last() =~~= rows.deep_view().take(
                    k as int,
                ));
                assert(rows.deep_view().take(k + 1) =~~= rows.deep_view().take(k as int).push(
                    rows.deep_view()[k as int],
                ));
                rows.deep_view().take(k as int).to_multiset_ensures();
                assert(rows.deep_view().take(k + 1).to_multiset() =~= rows.deep_view().take(
                    k as int,
                ).to_multiset().insert(x));
                // Sortedness of the extended list.
                assert forall|a: int, b: int|
                    0 <= a < b < cur.len() implies !lex_lt(#[trigger] cur[b], #[trigger] cur[a]) by {
                    if b < j {
                        assert(cur[a] == pre_sorted[a] && cur[b] == pre_sorted[b]);
                    } else if a > j {
                        assert(cur[a] == pre_sorted[a - 1] && cur[b] == pre_sorted[b - 1]);
                    } else if a == j && b > j {
                        assert(cur[a] == x && cur[b] == pre_sorted[b - 1]);
                        if lex_lt(pre_sorted[b - 1], x) {
                            assert(lex_lt(x, pre_sorted[j as int]));
                            lemma_lex_lt_trans(pre_sorted[b - 1], x, pre_sorted[j as int]);
                            if b - 1 == j {
                                lemma_lex_irrefl(pre_sorted[j as int]);
                            } else {
                                assert(!lex_lt(pre_sorted[b - 1], pre_sorted[j as int]));
                            }
                        }
                    } else if b == j {
                        assert(cur[a] == pre_sorted[a] && cur[b] == x);
                        assert(!lex_lt(x, pre_sorted[a]));
                    } else if a < j && b > j {
                        assert(cur[a] == pre_sorted[a] && cur[b] == pre_sorted[b - 1]);
                    }
                }
            }
            k += 1;
        }
        proof {
            assert(rows.deep_view().take(rows@.len() as int) =~~= rows.deep_view());
        }
        sorted
    }
}

/// One step of the position scan: searching for 1-based (line, col) from the
/// running counters (cl, cc) at byte offset idx.
pub open spec fn scan_position(
    bytes: Seq<u8>,
    line: int,
    col: int,
    cl: int,
    cc: int,
    idx: int,
) -> Option<int>
    decreases bytes.len() - idx,
{
    if idx < 0 || idx >= bytes.len() {
        None
    } else if cl == line && cc == col {
        Some(idx)
    } else if bytes[idx] == 10 {
        scan_position(bytes, line, col, cl + 1, 0, idx + 1)
    } else {
        scan_position(bytes, line, col, cl, cc + 1, idx + 1)
    }
}

/// The byte offset of 1-based (line, col) in `contents`, scanning the way
/// the reporting pass counts lines and columns.
pub open spec fn spec_position_from_line_col(contents: Seq<u8>, line: int, col: int) -> Option<
    int,
> {
    scan_position(contents, line, col, 1, 1, 0)
}

/// Renders source context for findings: resolves (line, col) pairs to byte
/// offsets and caches file contents per path for the lifetime of one
/// report-printing pass. Reading the files themselves is the caller's
/// business; the printer only stores and serves what it is handed.
#[derive(Debug)]
pub struct ErrorPrinter {
    pub workspace_root: String,
    pub file_cache: Vec<(String, String)>,
}

/// The first cached contents entry for `name`.
pub open spec fn cache_lookup(
    entries: Seq<(Seq<char>, Seq<char>)>,
    name: Seq<char>,
) -> Option<Seq<char>>
    decreases entries.len(),
{
    if entries.len() == 0 {
        None
    } else if entries[0].0 == name {
        Some(entries[0].1)
    } else {
        cache_lookup(entries.drop_first(), name)
    }
}

impl ErrorPrinter {
    /// The view of the file cache as a sequence of (path, contents) pairs.
    pub open spec fn cache_view(&self) -> Seq<(Seq<char>, Seq<char>)> {
        self.file_cache@.map_values(|p: (String, String)| (p.0@, p.1@))
    }

    /// A printer rooted at the given workspace directory, with an empty
    /// file cache.
    pub fn new(workspace_root: String) -> (r: Self)
        ensures
            r.workspace_root@ == workspace_root@,
            r.cache_view() =~= Seq::<(Seq<char>, Seq<char>)>::empty(),
    {
        ErrorPrinter { workspace_root, file_cache: Vec::new() }
    }

    /// The cached contents for `filename`, if present.
    pub fn get_cached<'a>(&'a self, filename: &str) -> (r: Option<&'a String>)
        ensures
            match r {
                Some(contents) => cache_lookup(self.cache_view(), filename@) == Some(contents@),
                None => cache_lookup(self.cache_view(), filename@) is None,
            },
    {
        let mut i: usize = 0;
        proof {
            assert(self.cache_view().skip(0) =~= self.cache_view());
        }
        while i < self.file_cache.len()
            invariant
                i <= self.file_cache@.len(),
                self.cache_view().len() == self.file_cache@.len(),
                cache_lookup(self.cache_view(), filename@) == cache_lookup(
                    self.cache_view().skip(i as int),
                    filename@,
                ),
            decreases self.file_cache@.len() - i,
        {
            proof {
                assert(self.cache_view().skip(i as int)[0] == self.cache_view()[i as int]);
                assert(self.cache_view().skip(i as int).drop_first() =~= self.cache_view().skip(
                    i + 1,
                ));
            }
            if str_eq(self.file_cache[i].0.as_str(), filename) {
                return Some(&self.file_cache[i].1);
            }
            i += 1;
        }
        None
    }

    /// Stores contents for `filename` at the end of the cache.
    pub fn insert_cached(&mut self, filename: String, contents: String)
        ensures
            final(self).cache_view() =~= old(self).cache_view().push((filename@, contents@)),
            final(self).workspace_root@ == old(self).workspace_root@,
    {
        self.file_cache.push((filename, contents));
    }

    /// Translates a 1-based line/column pair into a byte offset by scanning
    /// `contents`; the column counter restarts at zero right after each
    /// newline, so the first line is 1-based in both coordinates while later
    /// lines are 0-based in the column.
    pub fn position_from_line_col(contents: &str, line: usize, col: usize) -> (r: Option<usize>)
        ensures
            match r {
                Some(i) => spec_position_from_line_col(contents.spec_bytes(), line as int, col as int)
                    == Some(i as int),
                None => spec_position_from_line_col(contents.spec_bytes(), line as int, col as int)
                    is None,
            },
    {
        let bytes = contents.as_bytes();
        let n = bytes.len();
        let mut cl: u128 = 1;
        let mut cc: u128 = 1;
        let mut idx: usize = 0;
        while idx < n
            invariant
                n == bytes@.len(),
                bytes@ == contents.spec_bytes(),
                idx <= n,
                cl <= idx + 1,
                cc <= idx + 1,
                scan_position(bytes@, line as int, col as int, 1, 1, 0) == scan_position(
                    bytes@,
                    line as int,
                    col as int,
                    cl as int,
                    cc as int,
                    idx as int,
                ),
            decreases n - idx,
        {
            if cl == line as u128 && cc == col as u128 {
                return Some(idx);
            }
            let b = bytes[idx];
            if b == 10 {
                cl = cl + 1;
                cc = 0;
            } else {
                cc = cc + 1;
            }
            idx += 1;
        }
        None
    }
}

} // verus!
