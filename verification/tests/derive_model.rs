use rhai_core::custom_derive::{
    custom_type_calls, AttrError, AttrItem, BuilderCall, DataModel, DeriveModel, FieldModel, FieldRef, Getter,
    PropName, Setter,
};

fn flag(k: &str) -> AttrItem {
    AttrItem::Flag(Some(k.to_string()))
}

fn assign(k: &str, v: &str, is_path: bool) -> AttrItem {
    AttrItem::Assign(k.to_string(), v.to_string(), is_path)
}

fn field(ident: Option<&str>, attrs: Vec<AttrItem>) -> FieldModel {
    FieldModel { ident: ident.map(|s| s.to_string()), attrs }
}

#[test]
fn test_custom_type_tuple_struct() {
    // pub struct Bar(#[rhai_type(skip)] FLOAT, INT, #[rhai_type(name = "boo", readonly)] String, Vec<INT>);
    let input = DeriveModel {
        ident: "Bar".to_string(),
        attrs: vec![],
        data: DataModel::Fields(vec![
            field(None, vec![flag("skip")]),
            field(None, vec![]),
            field(None, vec![assign("name", "\"boo\"", false), flag("readonly")]),
            field(None, vec![]),
        ]),
    };
    let expected = vec![
        BuilderCall::WithName(PropName::Ident("Bar".to_string())),
        BuilderCall::WithGetSet(
            PropName::Numbered(1),
            Getter::CloneField(FieldRef::Index(1)),
            Setter::AssignField(FieldRef::Index(1)),
        ),
        BuilderCall::WithGet(PropName::Given("\"boo\"".to_string()), Getter::CloneField(FieldRef::Index(2))),
        BuilderCall::WithGetSet(
            PropName::Numbered(3),
            Getter::CloneField(FieldRef::Index(3)),
            Setter::AssignField(FieldRef::Index(3)),
        ),
    ];
    assert_eq!(custom_type_calls(&input), Ok(expected));
}

#[test]
fn test_custom_type_struct() {
    // #[rhai_type(skip, name = "MyFoo", extra = Self::build_extra)]
    // pub struct Foo { #[rhai_type(skip)] _dummy, #[rhai_type(get = get_bar)] bar,
    //     #[rhai_type(name = "boo", readonly)] baz, #[rhai_type(set = Self::set_qux)] qux }
    let input = DeriveModel {
        ident: "Foo".to_string(),
        attrs: vec![flag("skip"), assign("name", "\"MyFoo\"", false), assign("extra", "Self::build_extra", true)],
        data: DataModel::Fields(vec![
            field(Some("_dummy"), vec![flag("skip")]),
            field(Some("bar"), vec![assign("get", "get_bar", true)]),
            field(Some("baz"), vec![assign("name", "\"boo\"", false), flag("readonly")]),
            field(Some("qux"), vec![assign("set", "Self::set_qux", true)]),
        ]),
    };
    let expected = vec![
        BuilderCall::WithName(PropName::Given("\"MyFoo\"".to_string())),
        BuilderCall::WithGetSet(
            PropName::Ident("bar".to_string()),
            Getter::ByRef("get_bar".to_string()),
            Setter::AssignField(FieldRef::Named("bar".to_string())),
        ),
        BuilderCall::WithGet(
            PropName::Given("\"boo\"".to_string()),
            Getter::CloneField(FieldRef::Named("baz".to_string())),
        ),
        BuilderCall::WithGetSet(
            PropName::Ident("qux".to_string()),
            Getter::CloneField(FieldRef::Named("qux".to_string())),
            Setter::Custom("Self::set_qux".to_string()),
        ),
        BuilderCall::Extra("Self::build_extra".to_string()),
    ];
    assert_eq!(custom_type_calls(&input), Ok(expected));
}

#[test]
fn derive_attribute_errors() {
    let input = DeriveModel {
        ident: "T".to_string(),
        attrs: vec![flag("readonly"), AttrItem::Other],
        data: DataModel::Fields(vec![
            field(Some("a"), vec![assign("set", "f", true), flag("readonly")]),
            field(Some("b"), vec![flag("readonly"), flag("skip")]),
            field(Some("c"), vec![flag("skip"), assign("get", "1 + 1", false), assign("skip", "x", true)]),
            field(Some("d"), vec![AttrItem::Unparsable, AttrItem::Flag(None), flag("bogus")]),
        ]),
    };
    let expected = vec![
        AttrError::InvalidOption("readonly".to_string()),
        AttrError::ExpectingIdentifier,
        AttrError::ReadonlyWithSet,
        AttrError::SkipWithOthers,
        AttrError::NotAPath,
        AttrError::CannotUseWithSkip("get".to_string()),
        AttrError::CannotHaveValue("skip".to_string()),
        AttrError::Unparsable,
        AttrError::ExpectingIdentifier,
        AttrError::InvalidOption("bogus".to_string()),
    ];
    assert_eq!(custom_type_calls(&input), Err(expected));
}

#[test]
fn derive_refuses_enums_and_unions_and_accepts_unit_structs() {
    let mk = |data| DeriveModel { ident: "E".to_string(), attrs: vec![flag("bogus")], data };
    assert_eq!(custom_type_calls(&mk(DataModel::Enum)), Err(vec![AttrError::EnumsNotImplemented]));
    assert_eq!(custom_type_calls(&mk(DataModel::Union)), Err(vec![AttrError::UnionsNotSupported]));
    let unit = DeriveModel { ident: "U".to_string(), attrs: vec![], data: DataModel::Unit };
    assert_eq!(custom_type_calls(&unit), Ok(vec![BuilderCall::WithName(PropName::Ident("U".to_string()))]));
}
