//! The item graph: an in-memory model of a library's items as produced by an
//! external document generator. A `Crate` holds a root identifier, an index
//! mapping identifiers to item nodes, and a path table mapping a subset of
//! identifiers to fully-qualified path segments. The visitor walks this graph
//! without ever mutating it.

use vstd::prelude::*;

verus! {

/// A source location: a file path relative to the workspace root, plus
/// (line, column) pairs for the beginning and end of the span.
#[derive(Debug)]
pub struct Span {
    pub filename: String,
    pub begin: (usize, usize),
    pub end: (usize, usize),
}

/// The mathematical view of a [`Span`].
pub ghost struct SpanV {
    pub filename: Seq<char>,
    pub begin: (usize, usize),
    pub end: (usize, usize),
}

impl View for Span {
    type V = SpanV;

    open spec fn view(&self) -> SpanV {
        SpanV { filename: self.filename@, begin: self.begin, end: self.end }
    }
}

impl Span {
    /// An exact copy of this span.
    pub fn duplicate(&self) -> (r: Span)
        ensures
            r@ == self@,
    {
        Span { filename: self.filename.clone(), begin: self.begin, end: self.end }
    }
}

/// The view of an optional borrowed span.
pub open spec fn opt_span_view(location: Option<&Span>) -> Option<SpanV> {
    match location {
        Some(s) => Some(s@),
        None => None,
    }
}

/// The view of an optional owned span.
pub open spec fn opt_span_field_view(location: Option<Span>) -> Option<SpanV> {
    match location {
        Some(s) => Some(s@),
        None => None,
    }
}

/// Copies an optional borrowed span into an owned one.
pub fn duplicate_opt_span(location: Option<&Span>) -> (r: Option<Span>)
    ensures
        opt_span_field_view(r) == opt_span_view(location),
{
    match location {
        Some(s) => Some(s.duplicate()),
        None => None,
    }
}

/// Declared visibility of an item, before any contextual promotion.
#[derive(Clone, Copy, Debug, PartialEq, Eq, Structural)]
pub enum Visibility {
    /// Declared `pub`.
    Public,
    /// No visibility modifier: private unless contextually promoted.
    Default,
    /// Some other restriction, such as `pub(crate)`.
    Restricted,
}

/// A module's contents.
#[derive(Debug)]
pub struct Module {
    /// True only for the root module of the library.
    pub is_crate: bool,
    pub items: Vec<u32>,
}

/// A re-export: an item declared elsewhere made visible under a new path.
#[derive(Debug)]
pub struct ReExport {
    /// The name the re-export is visible under.
    pub name: String,
    /// The textual source path of the import, e.g. `inner::Thing`.
    pub source: String,
    /// The target item, when the document generator resolved it.
    pub id: Option<u32>,
}

/// How a struct stores its fields.
#[derive(Debug)]
pub enum StructKind {
    Unit,
    Tuple(Vec<Option<u32>>),
    Plain { fields: Vec<u32>, has_stripped_fields: bool },
}

#[derive(Debug)]
pub struct Struct {
    pub kind: StructKind,
    pub generics: Generics,
    pub impls: Vec<u32>,
}

#[derive(Debug)]
pub struct Enum {
    pub generics: Generics,
    pub variants: Vec<u32>,
    pub impls: Vec<u32>,
}

/// How an enum variant stores its fields.
#[derive(Debug)]
pub enum VariantKind {
    Plain,
    Tuple(Vec<Option<u32>>),
    Struct { fields: Vec<u32>, has_stripped_fields: bool },
}

#[derive(Debug)]
pub struct Variant {
    pub kind: VariantKind,
}

#[derive(Debug)]
pub struct Union {
    pub generics: Generics,
    pub fields: Vec<u32>,
    pub impls: Vec<u32>,
}

#[derive(Debug)]
pub struct Trait {
    pub items: Vec<u32>,
    pub generics: Generics,
    pub bounds: Vec<GenericBound>,
}

/// An implementation block.
#[derive(Debug)]
pub struct Impl {
    /// True for blanket implementations, which are skipped entirely.
    pub is_blanket: bool,
    /// The implemented trait, if the block implements one.
    pub trait_ref: Option<PathRef>,
    pub generics: Generics,
    pub items: Vec<u32>,
}

#[derive(Debug)]
pub struct Function {
    pub sig: FunctionSignature,
    pub generics: Generics,
}

#[derive(Debug)]
pub struct FunctionSignature {
    /// Argument names with their types; a leading `self` receiver is skipped
    /// during traversal.
    pub inputs: Vec<(String, Type)>,
    pub output: Option<Type>,
}

#[derive(Debug)]
pub struct TypeAlias {
    pub ty: Type,
    pub generics: Generics,
}

/// A reference to a named item, optionally with generic arguments.
#[derive(Debug)]
pub struct PathRef {
    pub id: u32,
    pub args: Option<Box<GenericArgs>>,
}

#[derive(Debug)]
pub struct DynTrait {
    pub traits: Vec<PolyTrait>,
}

#[derive(Debug)]
pub struct PolyTrait {
    pub trait_ref: PathRef,
    pub generic_params: Vec<GenericParamDef>,
}

#[derive(Debug)]
pub struct FunctionPointer {
    pub sig: FunctionSignature,
    pub generic_params: Vec<GenericParamDef>,
}

#[derive(Debug)]
pub struct QualifiedPath {
    pub self_type: Type,
    pub trait_ref: Option<PathRef>,
}

/// A type expression.
#[derive(Debug)]
pub enum Type {
    /// A reference to a named type, resolved to an identifier.
    ResolvedPath(PathRef),
    DynTrait(DynTrait),
    /// A generic parameter, such as `T`.
    Generic(String),
    /// A primitive, such as `u32`.
    Primitive(String),
    FunctionPointer(Box<FunctionPointer>),
    Tuple(Vec<Type>),
    Slice(Box<Type>),
    Array(Box<Type>),
    /// A pattern type: unstable, unsupported by design, aborts the run.
    Pat,
    ImplTrait(Vec<GenericBound>),
    /// An inferred type: should never appear, aborts the run.
    Infer,
    RawPointer(Box<Type>),
    BorrowedRef(Box<Type>),
    QualifiedPath(Box<QualifiedPath>),
}

#[derive(Debug)]
pub enum GenericArgs {
    AngleBracketed { args: Vec<GenericArg>, constraints: Vec<AssocItemConstraint> },
    Parenthesized { inputs: Vec<Type>, output: Option<Type> },
}

#[derive(Debug)]
pub enum GenericArg {
    Lifetime,
    Type(Type),
    Const,
    Infer,
}

#[derive(Debug)]
pub struct AssocItemConstraint {
    pub binding: AssocItemConstraintKind,
}

#[derive(Debug)]
pub enum AssocItemConstraintKind {
    Equality(Term),
    Constraint(Vec<GenericBound>),
}

#[derive(Debug)]
pub enum Term {
    Type(Type),
    Constant,
}

#[derive(Debug)]
pub enum GenericBound {
    TraitBound { trait_ref: PathRef, generic_params: Vec<GenericParamDef> },
    Outlives,
    /// Precise capturing (`use<..>`) bounds carry no type references.
    PreciseCapture,
}

#[derive(Debug)]
pub struct GenericParamDef {
    pub kind: GenericParamDefKind,
}

#[derive(Debug)]
pub enum GenericParamDefKind {
    Lifetime,
    Type { bounds: Vec<GenericBound>, default: Option<Type> },
    Const { ty: Type },
}

#[derive(Debug)]
pub struct Generics {
    pub params: Vec<GenericParamDef>,
    pub where_predicates: Vec<WherePredicate>,
}

#[derive(Debug)]
pub enum WherePredicate {
    BoundPredicate { bounds: Vec<GenericBound>, generic_params: Vec<GenericParamDef> },
    LifetimePredicate,
    EqPredicate { lhs: Type },
}

/// The kind-specific payload of an item node.
#[derive(Debug)]
pub enum ItemEnum {
    Module(Module),
    ReExport(ReExport),
    Union(Union),
    Struct(Struct),
    StructField(Type),
    Enum(Enum),
    Variant(Variant),
    Function(Function),
    Trait(Trait),
    /// Trait aliases are unstable, unsupported by design; abort the run.
    TraitAlias,
    Impl(Impl),
    TypeAlias(TypeAlias),
    Constant { ty: Type },
    Static { ty: Type },
    /// Foreign opaque types are unstable, unsupported by design; abort the run.
    ForeignType,
    AssocConst { ty: Type },
    AssocType { generics: Generics, bounds: Vec<GenericBound>, assigned_ty: Option<Type> },
    /// Macros, primitives and the like: ignored by traversal.
    Other,
}

/// One item node of the graph.
#[derive(Debug)]
pub struct Item {
    /// The opaque identifier the graph knows this item by.
    pub id: u32,
    /// The identifier of the crate that owns this item.
    pub crate_id: u32,
    pub name: Option<String>,
    pub span: Option<Span>,
    pub visibility: Visibility,
    pub inner: ItemEnum,
}

/// An entry of the path table: the fully-qualified path segments of an item.
#[derive(Debug)]
pub struct ItemSummary {
    pub id: u32,
    pub path: Vec<String>,
}

/// The whole item graph.
#[derive(Debug)]
pub struct Crate {
    /// Identifier of the root module item.
    pub root: u32,
    /// All item nodes, looked up by their `id` field.
    pub index: Vec<Item>,
    /// Fully-qualified paths for the subset of items that can be named.
    pub paths: Vec<ItemSummary>,
}

/// The first item in `index` whose identifier is `id`.
pub open spec fn index_lookup(index: Seq<Item>, id: u32) -> Option<Item>
    decreases index.len(),
{
    if index.len() == 0 {
        None
    } else if index[0].id == id {
        Some(index[0])
    } else {
        index_lookup(index.drop_first(), id)
    }
}

/// The first entry in `paths` whose identifier is `id`.
pub open spec fn paths_lookup(paths: Seq<ItemSummary>, id: u32) -> Option<ItemSummary>
    decreases paths.len(),
{
    if paths.len() == 0 {
        None
    } else if paths[0].id == id {
        Some(paths[0])
    } else {
        paths_lookup(paths.drop_first(), id)
    }
}

/// Looks `id` up in the item index.
pub fn find_item<'a>(index: &'a Vec<Item>, id: u32) -> (r: Option<&'a Item>)
    ensures
        match r {
            Some(item) => index_lookup(index@, id) == Some(*item),
            None => index_lookup(index@, id) is None,
        },
{
    let mut i: usize = 0;
    proof {
        assert(index@.skip(0) =~= index@);
    }
    while i < index.len()
        invariant
            i <= index@.len(),
            index_lookup(index@, id) == index_lookup(index@.skip(i as int), id),
        decreases index@.len() - i,
    {
        proof {
            assert(index@.skip(i as int)[0] == index@[i as int]);
            assert(index@.skip(i as int).drop_first() =~= index@.skip(i + 1));
        }
        if index[i].id == id {
            return Some(&index[i]);
        }
        i += 1;
    }
    None
}

/// Looks `id` up in the path table.
pub fn find_summary<'a>(paths: &'a Vec<ItemSummary>, id: u32) -> (r: Option<&'a ItemSummary>)
    ensures
        match r {
            Some(summary) => paths_lookup(paths@, id) == Some(*summary),
            None => paths_lookup(paths@, id) is None,
        },
{
    let mut i: usize = 0;
    proof {
        assert(paths@.skip(0) =~= paths@);
    }
    while i < paths.len()
        invariant
            i <= paths@.len(),
            paths_lookup(paths@, id) == paths_lookup(paths@.skip(i as int), id),
        decreases paths@.len() - i,
    {
        proof {
            assert(paths@.skip(i as int)[0] == paths@[i as int]);
            assert(paths@.skip(i as int).drop_first() =~= paths@.skip(i + 1));
        }
        if paths[i].id == id {
            return Some(&paths[i]);
        }
        i += 1;
    }
    None
}

/// Whether the item carries the name `name`.
pub open spec fn item_named(item: Item, name: Seq<char>) -> bool {
    match item.name {
        Some(n) => n@ == name,
        None => false,
    }
}

/// Whether any item in the index carries the name `name`.
pub open spec fn index_has_name(index: Seq<Item>, name: Seq<char>) -> bool {
    exists|i: int| 0 <= i < index.len() && #[trigger] item_named(index[i], name)
}

/// Decides whether any item in the index is named `name`.
pub fn any_item_named(index: &Vec<Item>, name: &str) -> (r: bool)
    ensures
        r == index_has_name(index@, name@),
{
    let mut i: usize = 0;
    while i < index.len()
        invariant
            i <= index@.len(),
            forall|j: int| 0 <= j < i ==> !#[trigger] item_named(index@[j], name@),
        decreases index@.len() - i,
    {
        match &index[i].name {
            Some(n) => {
                if crate::strings::str_eq(n.as_str(), name) {
                    proof {
                        assert(item_named(index@[i as int], name@));
                    }
                    return true;
                }
            },
            None => {},
        }
        i += 1;
    }
    false
}

} // verus!
