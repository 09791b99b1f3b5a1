//! The traversal path: an append-only sequence of (component kind, display
//! name, optional span) accumulated while descending the item graph. Each
//! recursive call extends a copy, never a shared value, so sibling branches
//! never see each other's extensions. The last component's kind drives the
//! visibility-promotion rules, and the rendered path names the enclosing item
//! in findings.

use vstd::prelude::*;

use crate::graph::{opt_span_field_view, opt_span_view, Span, SpanV};
use crate::strings::{join_sep, lemma_join_snoc};

verus! {

/// The kind of a traversal path component.
#[derive(Clone, Copy, Debug, PartialEq, Eq, Structural)]
pub enum ComponentType {
    AssocConst,
    AssocType,
    Constant,
    /// The root component naming the library itself.
    Crate,
    Enum,
    EnumVariant,
    Function,
    Impl,
    Module,
    ReExport,
    Static,
    Struct,
    StructField,
    Trait,
    TypeAlias,
    Union,
}

/// One step of the traversal path.
#[derive(Debug)]
pub struct PathComponent {
    pub kind: ComponentType,
    pub name: String,
    pub span: Option<Span>,
}

/// The mathematical view of a [`PathComponent`].
pub ghost struct PathComponentV {
    pub kind: ComponentType,
    pub name: Seq<char>,
    pub span: Option<SpanV>,
}

impl View for PathComponent {
    type V = PathComponentV;

    open spec fn view(&self) -> PathComponentV {
        PathComponentV {
            kind: self.kind,
            name: self.name@,
            span: opt_span_field_view(self.span),
        }
    }
}

/// The ordered components of one traversal path.
#[derive(Debug)]
pub struct Path {
    pub components: Vec<PathComponent>,
}

impl View for Path {
    type V = Seq<PathComponentV>;

    open spec fn view(&self) -> Seq<PathComponentV> {
        self.components@.map_values(|c: PathComponent| c@)
    }
}

/// The display names of the path's components, in order.
pub open spec fn path_names(path: Seq<PathComponentV>) -> Seq<Seq<char>> {
    path.map_values(|c: PathComponentV| c.name)
}

/// The span of the last component, if the path is non-empty and it has one.
pub open spec fn last_span_of(path: Seq<PathComponentV>) -> Option<SpanV> {
    if path.len() > 0 {
        path.last().span
    } else {
        None
    }
}

impl Path {
    /// A fresh path holding only the root component, named after the library.
    pub fn new(root_name: &str) -> (r: Path)
        ensures
            r@ =~= seq![
                PathComponentV { kind: ComponentType::Crate, name: root_name@, span: None },
            ],
    {
        let mut components: Vec<PathComponent> = Vec::new();
        components.push(
            PathComponent {
                kind: ComponentType::Crate,
                name: String::from_str(root_name),
                span: None,
            },
        );
        Path { components }
    }

    /// A copy of this path with one more component appended; the original is
    /// left untouched, so sibling traversal branches stay independent.
    pub fn extended(&self, kind: ComponentType, name: &str, span: Option<&Span>) -> (r: Path)
        ensures
            r@ =~= self@.push(
                PathComponentV { kind, name: name@, span: opt_span_view(span) },
            ),
    {
        let mut components: Vec<PathComponent> = Vec::new();
        let mut i: usize = 0;
        while i < self.components.len()
            invariant
                i <= self.components@.len(),
                components@.map_values(|c: PathComponent| c@) =~= self@.take(i as int),
            decreases self.components@.len() - i,
        {
            let c = &self.components[i];
            let copy = PathComponent {
                kind: c.kind,
                name: c.name.clone(),
                span: crate::graph::duplicate_opt_span(
                    match &c.span {
                        Some(s) => Some(s),
                        None => None,
                    },
                ),
            };
            proof {
                assert(copy@ == self@[i as int]);
                let ghost prev = components@.map_values(|c: PathComponent| c@);
                assert(prev.push(copy@) =~= self@.take(i + 1));
            }
            components.push(copy);
            proof {
                assert(components@.map_values(|c: PathComponent| c@) =~= self@.take(i + 1));
            }
            i += 1;
        }
        proof {
            assert(self@.take(self.components@.len() as int) =~= self@);
        }
        components.push(
            PathComponent {
                kind,
                name: String::from_str(name),
                span: crate::graph::duplicate_opt_span(span),
            },
        );
        Path { components }
    }

    /// The kind of the last component, if any.
    pub fn last_type(&self) -> (r: Option<ComponentType>)
        ensures
            self@.len() > 0 ==> r == Some(self@.last().kind),
            self@.len() == 0 ==> r is None,
    {
        if self.components.len() > 0 {
            Some(self.components[self.components.len() - 1].kind)
        } else {
            None
        }
    }

    /// The span of the last component, if any.
    pub fn last_span(&self) -> (r: Option<&Span>)
        ensures
            opt_span_view(r) == last_span_of(self@),
    {
        if self.components.len() > 0 {
            match &self.components[self.components.len() - 1].span {
                Some(s) => Some(s),
                None => None,
            }
        } else {
            None
        }
    }

    /// The path rendered as a `::`-delimited string.
    pub fn render(&self) -> (r: String)
        ensures
            r@ == join_sep(path_names(self@)),
    {
        let mut result = String::new();
        let mut i: usize = 0;
        proof {
            assert(path_names(self@).take(0) =~~= Seq::<Seq<char>>::empty());
            assert(path_names(self@.take(0)) =~~= Seq::<Seq<char>>::empty());
        }
        while i < self.components.len()
            invariant
                i <= self.components@.len(),
                self@.len() == self.components@.len(),
                result@ == join_sep(path_names(self@).take(i as int)),
            decreases self.components@.len() - i,
        {
            if i > 0 {
                result.append("::");
                proof {
                    reveal_strlit("::");
                    assert("::"@ =~= seq![':', ':']);
                }
            }
            result.append(self.components[i].name.as_str());
            proof {
                let names = path_names(self@);
                assert(names.take(i as int).push(names[i as int]) =~~= names.take(i + 1));
                lemma_join_snoc(names.take(i as int), names[i as int]);
                assert(names[i as int] == self.components@[i as int].name@);
            }
            i += 1;
        }
        proof {
            assert(path_names(self@).take(self.components@.len() as int) =~~= path_names(self@));
        }
        result
    }
}

} // verus!
