//! Small API shapes of the kinds the checker classifies: local types, types
//! from another library leaking through fields, traits with associated
//! types, doc-hidden modules. The test suite builds item graphs describing
//! these same shapes and runs the visitor over them.

use vstd::prelude::*;

verus! {

/// A type standing in for one owned by a different library.
pub struct SomeStruct;

/// A second externally-owned type.
pub struct SomeOtherStruct;

/// A plain capability trait.
pub trait SimpleTrait {
    fn something(&self) -> u32;
}

impl SimpleTrait for () {
    fn something(&self) -> u32 {
        0
    }
}

/// A capability trait with a type parameter.
pub trait SimpleGenericTrait<T> {
    fn something(&self, thing: T) -> u32;
}

/// A capability trait with associated input, output and error types.
pub trait AssociatedGenericTrait {
    type Input;

    type Output;

    type Error;

    fn something(&self, input: Self::Input) -> Self::Output;

    fn something_result(&self, input: Self::Input) -> Result<Self::Output, Self::Error>;
}

/// A newtype over a plain integer.
pub struct SimpleNewType(pub u32);

/// A struct carrying an associated constant.
pub struct AssocConstStruct;

impl AssocConstStruct {
    pub const SOME_CONST: u32 = 5;
}

/// Implements a trait whose associated type names an external type.
pub struct PublicStructImplsTraitWithExtAssocType;

/// Implements a private trait; private traits are not part of the surface.
pub struct PublicStructImplsPrivateTraitWithAssocType;

/// A public trait with an associated type; its items are public with it.
pub trait PublicTraitWithAssocType {
    type Something;

    fn something(&self);
}

/// Implements a public trait, fixing the associated type.
pub struct PublicStructImplsPublicTraitWithAssocType;

impl PublicTraitWithAssocType for PublicStructImplsPublicTraitWithAssocType {
    type Something = SomeStruct;

    fn something(&self) {
    }
}

/// A struct with one visible field and one the docs hide.
pub struct SomeStructWithStrippedFields {
    pub public_field: i32,
    pub stripped_field: u32,
}

/// A local unit struct: never a finding.
pub struct LocalUnitStruct;

/// Exposes an external type through a public tuple field.
pub struct TupleStructWithExternalType(pub SomeStruct);

/// Exposes only a local type through a public tuple field.
pub struct TupleStructWithoutExternalType(pub LocalUnitStruct);

/// Holds an external type in a private tuple field: not part of the surface.
pub struct TupleStructWithPrivateExternalType(SomeStruct);

/// Holds a local type in a private tuple field.
pub struct TupleStructWithoutPrivateExternalType(LocalUnitStruct);

/// Exposes an external type through a public named field.
pub struct PlainStructWithExternalType {
    pub external: SomeStruct,
}

/// Exposes only a local type through a public named field.
pub struct PlainStructWithoutExternalType {
    pub not_external: LocalUnitStruct,
}

/// Holds an external type in a private named field.
pub struct PlainStructWithPrivateExternalType {
    external: SomeStruct,
}

/// Holds a local type in a private named field.
pub struct PlainStructWithoutPrivateExternalType {
    not_external: LocalUnitStruct,
}

/// Implements a generic trait instantiated at an external type.
pub struct ImplsGenericTrait;

impl SimpleGenericTrait<SomeStruct> for ImplsGenericTrait {
    fn something(&self, _thing: SomeStruct) -> u32 {
        0
    }
}

/// Stands for a type declared in a doc-hidden module, re-exported publicly.
pub struct InnerStructA;

/// Same, with a public tuple field of an externally-owned newtype.
pub struct InnerStructB(pub SimpleNewType);

/// Same, with a public named field of an externally-owned newtype.
pub struct InnerStructC {
    pub inner: SimpleNewType,
}

/// An enum from a doc-hidden module wrapping an externally-owned newtype.
pub enum InnerEnum {
    SimpleNewType(SimpleNewType),
}

/// A function from a doc-hidden module returning an externally-owned type.
pub fn inner_fn() -> (r: SimpleNewType)
    ensures
        r.0 == 0,
{
    SimpleNewType(0)
}

/// A struct from a public module nested inside a doc-hidden module.
pub struct InnerStructD {
    pub inner: SimpleNewType,
}

} // verus!
