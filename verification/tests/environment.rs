use type_env::environment::{
    is_prelude_module, Environment, Imported, Target, TargetSupport, UniqueIdGenerator, UnusedModuleAlias,
    PIPE_VARIABLE, PRELUDE_MODULE_NAME,
};
use type_env::module::{
    Deprecation, FieldList, Implementations, ModuleInterface, TypeConstructor, TypeVariantConstructors,
    ValueConstructor, ValueConstructorVariant, AccessorsMap,
};
use type_env::name_map::NameMap;
use type_env::problems::{
    Error, ModuleSuggestion, Problems, UnknownTypeConstructorError, UnknownTypeHint, UnknownValueConstructorError,
};
use type_env::types::{Publicity, SrcSpan, Type, TypeList, TypeVarStore};

fn span(start: u32, end: u32) -> SrcSpan {
    SrcSpan { start, end }
}

fn named(module: &str, name: &str) -> Type {
    Type::Named {
        publicity: Publicity::Public,
        package: String::new(),
        module: module.to_string(),
        name: name.to_string(),
        args: TypeList::Nil,
    }
}

fn type_constructor(module: &str, name: &str, publicity: Publicity, origin: SrcSpan) -> TypeConstructor {
    TypeConstructor {
        publicity,
        origin,
        module: module.to_string(),
        parameters: TypeList::Nil,
        type_: named(module, name),
        deprecation: Deprecation::NotDeprecated,
    }
}

fn value(module: &str, type_label: &str, publicity: Publicity) -> ValueConstructor {
    ValueConstructor {
        publicity,
        deprecation: Deprecation::NotDeprecated,
        variant: ValueConstructorVariant::Record {
            name: type_label.to_string(),
            module: module.to_string(),
            location: span(0, 0),
        },
        type_: named(module, type_label),
    }
}

fn module(name: &str, types: Vec<(&str, Publicity)>, values: Vec<(&str, Publicity)>) -> ModuleInterface {
    let mut t: NameMap<TypeConstructor> = NameMap::new();
    for (n, p) in types {
        let _ = t.insert(n.to_string(), type_constructor(name, n, p, span(1, 2)));
    }
    let mut v: NameMap<ValueConstructor> = NameMap::new();
    for (n, p) in values {
        let _ = v.insert(n.to_string(), value(name, n, p));
    }
    ModuleInterface {
        name: name.to_string(),
        package: String::new(),
        types: t,
        types_value_constructors: NameMap::new(),
        values: v,
        accessors: NameMap::new(),
    }
}

fn modules() -> im::HashMap<String, ModuleInterface> {
    let mut m = im::HashMap::new();
    m.insert(
        PRELUDE_MODULE_NAME.to_string(),
        module(
            PRELUDE_MODULE_NAME,
            vec![("Int", Publicity::Public), ("Bool", Publicity::Public)],
            vec![("True", Publicity::Public), ("False", Publicity::Public)],
        ),
    );
    m.insert(
        "gleam/list".to_string(),
        module("gleam/list", vec![("Continue", Publicity::Public)], vec![("map", Publicity::Public)]),
    );
    m.insert(
        "gleam/lisp".to_string(),
        module("gleam/lisp", vec![("Atom", Publicity::Private)], vec![("map", Publicity::Private)]),
    );
    m.insert(
        "other/set".to_string(),
        module("other/set", vec![("Set", Publicity::Public)], vec![("new", Publicity::Public)]),
    );
    m
}

fn env(modules: &im::HashMap<String, ModuleInterface>) -> Environment<'_> {
    Environment::new(
        UniqueIdGenerator::new(),
        "pkg".to_string(),
        "app/main".to_string(),
        Target::Erlang,
        modules,
        TargetSupport::Enforced,
        TypeVarStore::new(),
    )
}

#[test]
fn new_environment_has_the_prelude_in_scope() {
    let m = modules();
    let e = env(&m);
    assert_eq!(e.previous_uid(), 0);
    // The types, then the values, of the prelude get ids after it.
    assert_eq!(e.ids.next_id, 5);
    assert_eq!(e.module_types.len(), 2);
    assert_eq!(e.module_types.get("Int").unwrap().0, 1);
    assert_eq!(e.module_types.get("Bool").unwrap().0, 2);
    assert_eq!(e.value_names.constructors.len(), 2);
    assert_eq!(e.value_names.constructors[0].0, "gleam");
    assert_eq!(e.value_names.constructors[0].1, "True");
    assert_eq!(e.value_names.constructors[0].2, "True");
    let mut names = e.local_value_names();
    names.sort();
    assert_eq!(names, vec!["False".to_string(), "True".to_string()]);
    assert_eq!(e.current_module, "app/main");
    assert_eq!(e.current_package, "pkg");
    assert!(e.value_usage_graph.is_empty());
    assert!(e.type_usage_graph.is_empty());
}

#[test]
fn ids_are_handed_out_in_turn() {
    let m = modules();
    let mut e = env(&m);
    let a = e.next_uid();
    let b = e.next_uid();
    assert_eq!(a, 5);
    assert_eq!(b, 6);
    assert_eq!(e.previous_uid(), 6);
}

#[test]
fn unique_id_generator_counts_up_and_wraps() {
    let mut g = UniqueIdGenerator::new();
    assert_eq!(g.next(), 0);
    assert_eq!(g.next(), 1);
    let mut g = UniqueIdGenerator { next_id: u64::MAX };
    assert_eq!(g.next(), u64::MAX);
    assert_eq!(g.next(), 0);
}

#[test]
fn new_variables_get_fresh_cells_and_ids() {
    let m = modules();
    let mut e = env(&m);
    let u = e.new_unbound_var();
    let g = e.new_generic_var();
    assert!(matches!(u, Type::Var { type_: 0 }));
    assert!(matches!(g, Type::Var { type_: 1 }));
    assert!(matches!(e.type_vars.get(0), type_env::types::TypeVar::Unbound { id: 5 }));
    assert!(matches!(e.type_vars.get(1), type_env::types::TypeVar::Generic { id: 6 }));
    assert_eq!(e.previous_uid(), 6);
}

#[test]
fn variable_found_after_insert_and_use_recorded() {
    let m = modules();
    let mut e = env(&m);
    e.insert_local_variable("x".to_string(), span(3, 4), named("gleam", "Int"));
    let found = e.get_variable(&"x".to_string(), &span(10, 11)).unwrap();
    assert!(matches!(found.variant, ValueConstructorVariant::LocalVariable { location } if location == span(3, 4)));
    assert!(found.publicity.is_private());
    let (_, name, usages) = e.value_usage_graph.get(&5).unwrap();
    assert_eq!(name, "x");
    assert_eq!(usages, &vec![span(10, 11)]);
    assert!(e.get_variable(&"y".to_string(), &span(0, 1)).is_none());
}

#[test]
fn pipe_variable_is_not_tracked() {
    let m = modules();
    let mut e = env(&m);
    e.insert_local_variable(PIPE_VARIABLE.to_string(), span(1, 2), named("gleam", "Int"));
    assert!(e.value_usage_graph.is_empty());
    assert!(e.get_variable(&PIPE_VARIABLE.to_string(), &span(5, 6)).is_some());
    assert!(!e.local_value_names().contains(&PIPE_VARIABLE.to_string()));
}

#[test]
fn insert_variable_records_what_it_stands_for() {
    let m = modules();
    let mut e = env(&m);
    e.insert_variable(
        "f".to_string(),
        ValueConstructorVariant::ModuleFn {
            name: "f".to_string(),
            module: "app/main".to_string(),
            location: span(0, 9),
            implementations: Implementations {
                gleam: true,
                uses_erlang_externals: false,
                uses_javascript_externals: false,
                can_run_on_erlang: true,
                can_run_on_javascript: true,
            },
        },
        named("gleam", "Int"),
        Publicity::Public,
        Deprecation::Deprecated { message: "old".to_string() },
    );
    let v = e.get_variable(&"f".to_string(), &span(20, 21)).unwrap();
    assert!(matches!(v.publicity, Publicity::Public));
    assert!(matches!(&v.deprecation, Deprecation::Deprecated { message } if message == "old"));
}

#[test]
fn closing_a_scope_forgets_what_was_added() {
    let m = modules();
    let mut e = env(&m);
    let saved = e.open_new_scope();
    e.insert_local_variable("inner".to_string(), span(0, 1), named("gleam", "Int"));
    assert!(e.get_variable(&"inner".to_string(), &span(2, 3)).is_some());
    e.close_scope(saved);
    assert!(e.get_variable(&"inner".to_string(), &span(2, 3)).is_none());
    assert!(e.get_variable(&"True".to_string(), &span(2, 3)).is_some());
}

#[test]
fn in_new_scope_restores_the_scope_and_returns_the_result() {
    let m = modules();
    let mut e = env(&m);
    let mut problems = Problems::new();
    let r: Result<u32, ()> = e.in_new_scope(&mut problems, |env, _| {
        env.insert_local_variable("tmp".to_string(), span(0, 1), named("gleam", "Int"));
        Ok(42)
    });
    assert_eq!(r, Ok(42));
    assert!(e.get_variable(&"tmp".to_string(), &span(0, 1)).is_none());
}

#[test]
fn duplicate_type_names_are_errors_but_prelude_types_may_be_shadowed() {
    let m = modules();
    let mut e = env(&m);
    let info = type_constructor("app/main", "Int", Publicity::Public, span(5, 9));
    assert!(e.insert_type_constructor("Int".to_string(), info).is_ok());
    let info = type_constructor("app/main", "Box", Publicity::Public, span(10, 20));
    assert!(e.insert_type_constructor("Box".to_string(), info).is_ok());
    assert!(e.assert_unique_type_name(&"Int".to_string(), span(30, 31)).is_err());
    let again = type_constructor("app/main", "Box", Publicity::Public, span(40, 50));
    match e.insert_type_constructor("Box".to_string(), again) {
        Err(Error::DuplicateTypeName { name, location, previous_location }) => {
            assert_eq!(name, "Box");
            assert_eq!(location, span(40, 50));
            assert_eq!(previous_location, span(10, 20));
        },
        other => panic!("unexpected {:?}", other),
    }
    match e.assert_unique_type_name(&"Box".to_string(), span(60, 61)) {
        Err(Error::DuplicateTypeName { location, previous_location, .. }) => {
            assert_eq!(location, span(60, 61));
            assert_eq!(previous_location, span(40, 50));
        },
        other => panic!("unexpected {:?}", other),
    }
    assert!(e.assert_unique_type_name(&"Other".to_string(), span(0, 1)).is_ok());
    assert!(e.assert_unique_type_name(&"Bool".to_string(), span(0, 1)).is_ok());
}

#[test]
fn type_lookup_records_uses_except_at_the_definition() {
    let m = modules();
    let mut e = env(&m);
    let info = type_constructor("app/main", "Box", Publicity::Private, span(10, 20));
    assert!(e.insert_type_constructor("Box".to_string(), info).is_ok());
    let id = e.previous_uid();
    assert_eq!(id, 0);
    let t = e.get_type_constructor(&None, &"Box".to_string(), &span(10, 20)).unwrap();
    assert_eq!(t.origin, span(10, 20));
    assert!(e.type_usage_graph.get(&5).unwrap().2.is_empty());
    let _ = e.get_type_constructor(&None, &"Box".to_string(), &span(30, 33)).unwrap();
    assert_eq!(e.type_usage_graph.get(&5).unwrap().2, vec![span(30, 33)]);
}

#[test]
fn unknown_type_hints() {
    let m = modules();
    let mut e = env(&m);
    match e.get_type_constructor(&None, &"True".to_string(), &span(0, 1)) {
        Err(UnknownTypeConstructorError::Type { name, hint: UnknownTypeHint::ValueInScopeWithSameName }) => {
            assert_eq!(name, "True")
        },
        other => panic!("unexpected {:?}", other),
    }
    match e.get_type_constructor(&None, &"Nope".to_string(), &span(0, 1)) {
        Err(UnknownTypeConstructorError::Type { hint: UnknownTypeHint::AlternativeTypes(names), .. }) => {
            assert_eq!(names, vec!["Int".to_string(), "Bool".to_string()])
        },
        other => panic!("unexpected {:?}", other),
    }
}

#[test]
fn qualified_type_lookup_marks_the_module_used() {
    let m = modules();
    let mut e = env(&m);
    let list = m.get("gleam/list").unwrap();
    let _ = e.imported_modules.insert("list".to_string(), (span(0, 5), list));
    let _ = e.unused_modules.insert("list".to_string(), span(0, 5));
    let _ = e.unused_module_aliases.insert(
        "list".to_string(),
        UnusedModuleAlias { location: span(0, 5), module_name: "gleam/list".to_string() },
    );
    let t = e.get_type_constructor(&Some(("list".to_string(), span(9, 10))), &"Continue".to_string(), &span(9, 10)).unwrap();
    assert_eq!(t.module, "gleam/list");
    assert!(e.unused_modules.get("list").is_none());
    assert!(e.unused_module_aliases.get("list").is_none());
    match e.get_type_constructor(&Some(("list".to_string(), span(9, 10))), &"Missing".to_string(), &span(9, 10)) {
        Err(UnknownTypeConstructorError::ModuleType { name, module_name, type_constructors, imported_type_as_value }) => {
            assert_eq!(name, "Missing");
            assert_eq!(module_name, "gleam/list");
            assert_eq!(type_constructors, vec!["Continue".to_string()]);
            assert!(!imported_type_as_value);
        },
        other => panic!("unexpected {:?}", other),
    }
    match e.get_type_constructor(&Some(("lists".to_string(), span(9, 10))), &"Continue".to_string(), &span(9, 10)) {
        Err(UnknownTypeConstructorError::Module { name, suggestions }) => {
            assert_eq!(name, "lists");
            assert_eq!(suggestions.len(), 1);
            assert!(matches!(&suggestions[0], ModuleSuggestion::Imported(n) if n == "list"));
        },
        other => panic!("unexpected {:?}", other),
    }
}

#[test]
fn constructors_for_types() {
    let m = modules();
    let mut e = env(&m);
    e.insert_type_to_constructors(
        "Box".to_string(),
        TypeVariantConstructors {
            type_parameters: TypeList::Nil,
            variants: FieldList::Cons {
                label: "Box".to_string(),
                index: 0,
                type_: named("app/main", "Box"),
                tail: Box::new(FieldList::Nil),
            },
        },
    );
    let c = e.get_constructors_for_type(&String::new(), &"Box".to_string()).unwrap();
    assert!(matches!(&c.variants, FieldList::Cons { label, .. } if label == "Box"));
    assert!(e.get_constructors_for_type(&"app/main".to_string(), &"Box".to_string()).is_ok());
    match e.get_constructors_for_type(&"other/set".to_string(), &"Set".to_string()) {
        Err(UnknownTypeConstructorError::ModuleType { module_name, type_constructors, .. }) => {
            assert_eq!(module_name, "other/set");
            assert_eq!(type_constructors, vec!["Set".to_string()]);
        },
        other => panic!("unexpected {:?}", other),
    }
    match e.get_constructors_for_type(&"nowhere".to_string(), &"Set".to_string()) {
        Err(UnknownTypeConstructorError::Module { name, .. }) => assert_eq!(name, "Set"),
        other => panic!("unexpected {:?}", other),
    }
    match e.get_constructors_for_type(&String::new(), &"Nope".to_string()) {
        Err(UnknownTypeConstructorError::Type { name, .. }) => assert_eq!(name, "Nope"),
        other => panic!("unexpected {:?}", other),
    }
}

#[test]
fn value_lookup_uses_private_constructor_types() {
    let m = modules();
    let mut e = env(&m);
    let info = type_constructor("app/main", "Box", Publicity::Private, span(10, 20));
    assert!(e.insert_type_constructor("Box".to_string(), info).is_ok());
    e.insert_variable(
        "Box".to_string(),
        ValueConstructorVariant::Record { name: "Box".to_string(), module: "app/main".to_string(), location: span(10, 20) },
        named("app/main", "Box"),
        Publicity::Private,
        Deprecation::NotDeprecated,
    );
    let v = e.get_value_constructor(None, &"Box".to_string(), &span(50, 53)).unwrap();
    assert!(v.publicity.is_private());
    assert_eq!(e.value_usage_graph.get(&6).unwrap().2, vec![span(50, 53)]);
    assert_eq!(e.type_usage_graph.get(&5).unwrap().2, vec![span(50, 53)]);
}

#[test]
fn unknown_values() {
    let m = modules();
    let mut e = env(&m);
    let info = type_constructor("app/main", "Thing", Publicity::Public, span(10, 20));
    assert!(e.insert_type_constructor("Thing".to_string(), info).is_ok());
    match e.get_value_constructor(None, &"Thing".to_string(), &span(0, 1)) {
        Err(UnknownValueConstructorError::Variable { name, mut variables, type_with_name_in_scope }) => {
            assert_eq!(name, "Thing");
            variables.sort();
            assert_eq!(variables, vec!["False".to_string(), "True".to_string()]);
            assert!(type_with_name_in_scope);
        },
        other => panic!("unexpected {:?}", other),
    }
    match e.get_value_constructor(Some(&"set".to_string()), &"new".to_string(), &span(0, 1)) {
        Err(UnknownValueConstructorError::Module { name, suggestions }) => {
            assert_eq!(name, "set");
            assert_eq!(suggestions.len(), 1);
            assert!(matches!(&suggestions[0], ModuleSuggestion::Importable(n) if n == "other/set"));
        },
        other => panic!("unexpected {:?}", other),
    }
}

#[test]
fn qualified_value_lookup() {
    let m = modules();
    let mut e = env(&m);
    let lisp = m.get("gleam/lisp").unwrap();
    let _ = e.imported_modules.insert("lisp".to_string(), (span(0, 5), lisp));
    let _ = e.unused_modules.insert("lisp".to_string(), span(0, 5));
    match e.get_value_constructor(Some(&"lisp".to_string()), &"map".to_string(), &span(7, 8)) {
        Err(UnknownValueConstructorError::ModuleValue { name, module_name, value_constructors, imported_value_as_type }) => {
            assert_eq!(name, "map");
            assert_eq!(module_name, "gleam/lisp");
            assert!(value_constructors.is_empty());
            assert!(!imported_value_as_type);
        },
        other => panic!("unexpected {:?}", other),
    }
    assert!(e.unused_modules.get("lisp").is_none());
    let list = m.get("gleam/list").unwrap();
    let _ = e.imported_modules.insert("list".to_string(), (span(0, 5), list));
    assert!(e.get_value_constructor(Some(&"list".to_string()), &"map".to_string(), &span(7, 8)).is_ok());
}

#[test]
fn module_values_and_accessors_are_recorded() {
    let m = modules();
    let mut e = env(&m);
    e.insert_module_value("answer".to_string(), value("app/main", "Answer", Publicity::Public));
    assert!(e.module_values.get("answer").is_some());
    e.insert_accessors(
        "Box".to_string(),
        AccessorsMap { publicity: Publicity::Public, type_: named("app/main", "Box"), accessors: FieldList::Nil },
    );
    assert!(e.accessors.get("Box").is_some());
}

#[test]
fn prelude_module_name() {
    assert!(is_prelude_module(&"gleam".to_string()));
    assert!(!is_prelude_module(&"gleam/list".to_string()));
}

#[test]
fn suggestions_for_an_unknown_module() {
    let m = modules();
    let mut e = env(&m);
    let list = m.get("gleam/list").unwrap();
    let _ = e.imported_modules.insert("lists".to_string(), (span(0, 5), list));
    // "gleam/list" is known as "list" once imported, and no module is
    // imported under that name: it exports `map`, and is nearest; the
    // imported "lists" comes next; "gleam/lisp" exports no public `map`.
    let s = e.suggest_modules("list", Imported::Value("map".to_string()));
    assert_eq!(s.len(), 2);
    assert!(matches!(&s[0], ModuleSuggestion::Importable(n) if n == "gleam/list"));
    assert!(matches!(&s[1], ModuleSuggestion::Imported(n) if n == "lists"));
    let none = e.suggest_modules("zzzzzz", Imported::Module);
    assert!(none.is_empty());
}

#[test]
fn checked_start_needs_the_prelude() {
    let m = modules();
    let e = Environment::new_checked(
        UniqueIdGenerator::new(),
        "pkg".to_string(),
        "app/main".to_string(),
        Target::Erlang,
        &m,
        TargetSupport::Enforced,
        TypeVarStore::new(),
    );
    assert_eq!(e.unwrap().ids.next_id, 5);
    let empty: im::HashMap<String, ModuleInterface> = im::HashMap::new();
    let none = Environment::new_checked(
        UniqueIdGenerator::new(),
        "pkg".to_string(),
        "app/main".to_string(),
        Target::Erlang,
        &empty,
        TargetSupport::Enforced,
        TypeVarStore::new(),
    );
    assert!(none.is_none());
}

#[test]
fn in_new_scope_keeps_what_else_the_closure_did() {
    let m = modules();
    let mut e = env(&m);
    let mut problems = Problems::new();
    let r: Result<(), u8> = e.in_new_scope(&mut problems, |env, p| {
        env.insert_local_variable("tmp".to_string(), span(0, 1), named("gleam", "Int"));
        let _ = env.next_uid();
        p.error(Error::DuplicateTypeName { name: "A".to_string(), location: span(1, 2), previous_location: span(0, 1) });
        Err(7)
    });
    assert_eq!(r, Err(7));
    assert_eq!(e.ids.next_id, 7);
    assert_eq!(e.previous_uid(), 6);
    assert_eq!(problems.errors.len(), 1);
    assert!(e.value_usage_graph.get(&5).is_some());
    assert!(e.get_variable(&"tmp".to_string(), &span(0, 1)).is_none());
}

#[test]
fn unknown_variable_lists_the_names_in_scope() {
    let m = modules();
    let mut e = env(&m);
    e.insert_local_variable("x".to_string(), span(0, 1), named("gleam", "Int"));
    e.insert_local_variable(PIPE_VARIABLE.to_string(), span(2, 3), named("gleam", "Int"));
    let mut names = e.local_value_names();
    names.sort();
    match e.get_value_constructor(None, &"y".to_string(), &span(0, 1)) {
        Err(UnknownValueConstructorError::Variable { mut variables, .. }) => {
            variables.sort();
            assert_eq!(variables, names);
            assert_eq!(variables, vec!["False".to_string(), "True".to_string(), "x".to_string()]);
        },
        other => panic!("unexpected {:?}", other),
    }
}
