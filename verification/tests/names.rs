use type_env::edit_distance::edit_distance;
use type_env::module::{Deprecation, ModuleInterface, TypeConstructor, ValueConstructor, ValueConstructorVariant};
use type_env::name_map::{str_eq, NameMap};
use type_env::problems::{last_name_component, ModuleSuggestion, Problems, Error};
use type_env::suggestions::text_less;
use type_env::types::{Publicity, SrcSpan, Type, TypeList};

#[test]
fn edit_distances() {
    assert_eq!(edit_distance("kitten", "sitting", 3), Some(3));
    assert_eq!(edit_distance("kitten", "sitting", 2), None);
    assert_eq!(edit_distance("list", "list", 0), Some(0));
    assert_eq!(edit_distance("ab", "ba", 1), Some(1));
    assert_eq!(edit_distance("", "abc", 5), Some(3));
    assert_eq!(edit_distance("abc", "", 2), None);
    assert_eq!(edit_distance("ca", "abc", 3), Some(3));
}

#[test]
fn last_components_of_module_paths() {
    assert_eq!(last_name_component("gleam/list"), "list");
    assert_eq!(last_name_component("list"), "list");
    assert_eq!(last_name_component("a/b/c"), "c");
    assert_eq!(last_name_component("a/"), "");
    assert_eq!(ModuleSuggestion::Importable("x/y".to_string()).last_name_component(), "y");
    assert_eq!(ModuleSuggestion::Imported("z".to_string()).last_name_component(), "z");
}

#[test]
fn name_map_keeps_first_insertion_order() {
    let mut m: NameMap<u32> = NameMap::new();
    assert_eq!(m.insert("b".to_string(), 1), None);
    assert_eq!(m.insert("a".to_string(), 2), None);
    assert_eq!(m.insert("b".to_string(), 3), Some(1));
    assert_eq!(m.len(), 2);
    assert_eq!(m.keys(), vec!["b".to_string(), "a".to_string()]);
    assert_eq!(m.get("b"), Some(&3));
    assert_eq!(*m.value_at(1), 2);
    assert_eq!(m.key_at(0), "b");
    assert!(m.contains_key("a"));
    assert_eq!(m.remove("b"), Some(3));
    assert!(!m.contains_key("b"));
    assert_eq!(m.remove("b"), None);
    assert_eq!(m.keys(), vec!["a".to_string()]);
}

#[test]
fn text_comparison() {
    assert!(str_eq("abc", "abc"));
    assert!(!str_eq("abc", "abd"));
    assert!(!str_eq("ab", "abc"));
    assert!(text_less("ab", "abc"));
    assert!(text_less("abc", "abd"));
    assert!(!text_less("abc", "abc"));
    assert!(!text_less("b", "abc"));
}

fn int_type() -> Type {
    Type::Named {
        publicity: Publicity::Public,
        package: String::new(),
        module: "gleam".to_string(),
        name: "Int".to_string(),
        args: TypeList::Nil,
    }
}

#[test]
fn public_names_of_a_module() {
    let mut types: NameMap<TypeConstructor> = NameMap::new();
    for (n, p) in [("A", Publicity::Public), ("B", Publicity::Private), ("C", Publicity::Internal { attribute_location: None })] {
        let _ = types.insert(
            n.to_string(),
            TypeConstructor {
                publicity: p,
                origin: SrcSpan { start: 0, end: 0 },
                module: "m".to_string(),
                parameters: TypeList::Nil,
                type_: int_type(),
                deprecation: Deprecation::NotDeprecated,
            },
        );
    }
    let mut values: NameMap<ValueConstructor> = NameMap::new();
    for (n, p) in [("x", Publicity::Private), ("y", Publicity::Public)] {
        let _ = values.insert(
            n.to_string(),
            ValueConstructor {
                publicity: p,
                deprecation: Deprecation::NotDeprecated,
                variant: ValueConstructorVariant::LocalVariable { location: SrcSpan { start: 0, end: 0 } },
                type_: int_type(),
            },
        );
    }
    let m = ModuleInterface {
        name: "m".to_string(),
        package: "p".to_string(),
        types,
        types_value_constructors: NameMap::new(),
        values,
        accessors: NameMap::new(),
    };
    assert_eq!(m.public_type_names(), vec!["A".to_string(), "C".to_string()]);
    assert_eq!(m.public_value_names(), vec!["y".to_string()]);
    assert!(m.get_public_type("B").is_none());
    assert!(m.get_public_type("C").is_some());
    assert!(m.get_public_value("x").is_none());
    assert!(m.get_public_value("y").is_some());
    let copy = m.clone();
    assert_eq!(copy.public_type_names(), vec!["A".to_string(), "C".to_string()]);
}

#[test]
fn publicity() {
    assert!(Publicity::Private.is_private());
    assert!(!Publicity::Public.is_private());
    assert!(Publicity::Internal { attribute_location: None }.is_importable());
    assert!(!Publicity::Private.is_importable());
    let a = Publicity::Internal { attribute_location: Some(SrcSpan { start: 1, end: 2 }) };
    let b = Publicity::Internal { attribute_location: Some(SrcSpan { start: 1, end: 2 }) };
    assert!(a.same_as(&b));
    assert!(!a.same_as(&Publicity::Internal { attribute_location: None }));
    assert!(!Publicity::Public.same_as(&Publicity::Private));
}

#[test]
fn problems_are_kept_in_order() {
    let mut p = Problems::new();
    p.error(Error::DuplicateTypeName {
        name: "A".to_string(),
        location: SrcSpan { start: 1, end: 2 },
        previous_location: SrcSpan { start: 0, end: 1 },
    });
    assert_eq!(p.errors.len(), 1);
    assert!(p.warnings.is_empty());
}
