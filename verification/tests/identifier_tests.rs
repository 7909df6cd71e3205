use rocm_attr::identifier::{get_item_identifier, ItemHead, UNKNOWN_IMPL, UNKNOWN_ITEM};

#[test]
fn a_function_goes_by_fn_and_its_name() {
    assert_eq!(get_item_identifier(&ItemHead::Fn { ident: "foo".to_string() }), "fn foo");
}

#[test]
fn a_struct_goes_by_struct_and_its_name() {
    assert_eq!(get_item_identifier(&ItemHead::Struct { ident: "Bar".to_string() }), "struct Bar");
}

#[test]
fn an_impl_goes_by_impl_and_the_path_of_its_type() {
    assert_eq!(get_item_identifier(&ItemHead::Impl { self_ty: Some("Baz".to_string()) }), "impl Baz");
    assert_eq!(
        get_item_identifier(&ItemHead::Impl { self_ty: Some("  crate :: Baz \n".to_string()) }),
        "impl crate :: Baz"
    );
}

#[test]
fn an_impl_of_a_type_that_is_no_path_goes_by_a_fixed_name() {
    assert_eq!(get_item_identifier(&ItemHead::Impl { self_ty: None }), "impl impl_unknown");
    assert_eq!(UNKNOWN_IMPL, "impl_unknown");
}

#[test]
fn an_enum_goes_by_enum_and_its_name() {
    assert_eq!(get_item_identifier(&ItemHead::Enum { ident: "Qux".to_string() }), "enum Qux");
}

#[test]
fn a_trait_goes_by_trait_and_its_name() {
    assert_eq!(get_item_identifier(&ItemHead::Trait { ident: "Tr".to_string() }), "trait Tr");
}

#[test]
fn any_other_item_goes_by_the_shared_identifier() {
    assert_eq!(get_item_identifier(&ItemHead::Other), "unknown");
    assert_eq!(UNKNOWN_ITEM, "unknown");
}

#[test]
fn names_are_taken_as_they_are() {
    assert_eq!(get_item_identifier(&ItemHead::Fn { ident: String::new() }), "fn ");
    assert_eq!(get_item_identifier(&ItemHead::Fn { ident: " r#fn ".to_string() }), "fn  r#fn ");
    assert_eq!(get_item_identifier(&ItemHead::Struct { ident: "\u{e9}".to_string() }), "struct \u{e9}");
}
