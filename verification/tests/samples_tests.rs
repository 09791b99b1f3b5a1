use check_external_types::samples::{
    inner_fn, AssocConstStruct, ImplsGenericTrait, SimpleGenericTrait, SimpleTrait, SomeStruct,
};

#[test]
fn inner_fn_returns_zero_newtype() {
    let v = inner_fn();
    assert_eq!(v.0, 0);
}

#[test]
fn associated_constant_value() {
    assert_eq!(AssocConstStruct::SOME_CONST, 5);
}

#[test]
fn simple_trait_on_unit() {
    assert_eq!(().something(), 0);
}

#[test]
fn generic_trait_impl() {
    assert_eq!(ImplsGenericTrait.something(SomeStruct), 0);
}
