use type_env::environment::{Environment, Target, TargetSupport, UniqueIdGenerator, UnusedModuleAlias, PRELUDE_MODULE_NAME};
use type_env::module::{
    Deprecation, Implementations, ModuleInterface, TypeConstructor, TypedConstant, ValueConstructorVariant,
};
use type_env::name_map::NameMap;
use type_env::problems::{Problems, Warning};
use type_env::types::{Publicity, SrcSpan, Type, TypeList, TypeVarStore};

fn span(start: u32, end: u32) -> SrcSpan {
    SrcSpan { start, end }
}

fn prelude() -> im::HashMap<String, ModuleInterface> {
    let mut m = im::HashMap::new();
    m.insert(
        PRELUDE_MODULE_NAME.to_string(),
        ModuleInterface {
            name: PRELUDE_MODULE_NAME.to_string(),
            package: String::new(),
            types: NameMap::new(),
            types_value_constructors: NameMap::new(),
            values: NameMap::new(),
            accessors: NameMap::new(),
        },
    );
    m
}

fn env(modules: &im::HashMap<String, ModuleInterface>) -> Environment<'_> {
    Environment::new(
        UniqueIdGenerator::new(),
        "pkg".to_string(),
        "app".to_string(),
        Target::Erlang,
        modules,
        TargetSupport::Enforced,
        TypeVarStore::new(),
    )
}

fn int_type() -> Type {
    Type::Named {
        publicity: Publicity::Public,
        package: String::new(),
        module: "gleam".to_string(),
        name: "Int".to_string(),
        args: TypeList::Nil,
    }
}

fn implementations(gleam: bool) -> Implementations {
    Implementations {
        gleam,
        uses_erlang_externals: false,
        uses_javascript_externals: false,
        can_run_on_erlang: true,
        can_run_on_javascript: true,
    }
}

fn type_constructor(module: &str, publicity: Publicity, origin: SrcSpan) -> TypeConstructor {
    TypeConstructor {
        publicity,
        origin,
        module: module.to_string(),
        parameters: TypeList::Nil,
        type_: int_type(),
        deprecation: Deprecation::NotDeprecated,
    }
}

fn warnings_of(e: &mut Environment<'_>) -> (Vec<String>, Vec<SrcSpan>) {
    let mut problems = Problems::new();
    let locations = e.convert_unused_to_warnings(&mut problems);
    assert!(problems.errors.is_empty());
    let mut shown: Vec<String> = problems.warnings.iter().map(|w| format!("{:?}", w)).collect();
    shown.sort();
    (shown, locations)
}

#[test]
fn unused_local_variable_is_reported_with_a_hint() {
    let m = prelude();
    let mut e = env(&m);
    e.insert_local_variable("count".to_string(), span(4, 9), int_type());
    let mut problems = Problems::new();
    let locations = e.convert_unused_to_warnings(&mut problems);
    assert!(locations.is_empty());
    assert_eq!(problems.warnings.len(), 1);
    match &problems.warnings[0] {
        Warning::UnusedVariable { location, how_to_ignore } => {
            assert_eq!(*location, span(4, 9));
            assert_eq!(how_to_ignore.as_deref(), Some("_count"));
        },
        other => panic!("unexpected {:?}", other),
    }
}

#[test]
fn used_variable_is_not_reported() {
    let m = prelude();
    let mut e = env(&m);
    e.insert_local_variable("count".to_string(), span(4, 9), int_type());
    assert!(e.get_variable(&"count".to_string(), &span(20, 25)).is_some());
    let (shown, locations) = warnings_of(&mut e);
    assert!(shown.is_empty());
    assert!(locations.is_empty());
}

#[test]
fn unused_types_private_or_imported() {
    let m = prelude();
    let mut e = env(&m);
    assert!(e.insert_type_constructor("Mine".to_string(), type_constructor("app", Publicity::Private, span(1, 2))).is_ok());
    assert!(e.insert_type_constructor("Public".to_string(), type_constructor("app", Publicity::Public, span(3, 4))).is_ok());
    assert!(e.insert_type_constructor("Theirs".to_string(), type_constructor("lib", Publicity::Public, span(5, 6))).is_ok());
    let (shown, _) = warnings_of(&mut e);
    assert_eq!(shown.len(), 2);
    let mine = format!("{:?}", Warning::UnusedType { location: span(1, 2), imported: false, name: "Mine".to_string() });
    let theirs = format!("{:?}", Warning::UnusedType { location: span(5, 6), imported: true, name: "Theirs".to_string() });
    assert!(shown.contains(&mine));
    assert!(shown.contains(&theirs));
}

#[test]
fn unused_values_of_each_kind() {
    let m = prelude();
    let mut e = env(&m);
    let _ = e.unqualified_imported_names.insert("imported_fn".to_string(), span(90, 91));
    let entries = vec![
        ("lit", ValueConstructorVariant::LocalConstant { literal: TypedConstant { location: span(1, 1) } }, Publicity::Private),
        ("pub_lit", ValueConstructorVariant::LocalConstant { literal: TypedConstant { location: span(2, 2) } }, Publicity::Public),
        ("Rec", ValueConstructorVariant::Record { name: "Rec".to_string(), module: "app".to_string(), location: span(3, 3) }, Publicity::Private),
        ("helper", ValueConstructorVariant::ModuleFn { name: "helper".to_string(), module: "app".to_string(), location: span(4, 4), implementations: implementations(true) }, Publicity::Private),
        ("imported_fn", ValueConstructorVariant::ModuleFn { name: "imported_fn".to_string(), module: "lib".to_string(), location: span(5, 5), implementations: implementations(true) }, Publicity::Public),
        ("external_fn", ValueConstructorVariant::ModuleFn { name: "external_fn".to_string(), module: "lib".to_string(), location: span(6, 6), implementations: implementations(false) }, Publicity::Public),
        ("own_pub_fn", ValueConstructorVariant::ModuleFn { name: "own_pub_fn".to_string(), module: "app".to_string(), location: span(7, 7), implementations: implementations(true) }, Publicity::Public),
        ("secret", ValueConstructorVariant::ModuleConstant { location: span(8, 8), module: "app".to_string() }, Publicity::Private),
        ("their_const", ValueConstructorVariant::ModuleConstant { location: span(9, 9), module: "lib".to_string() }, Publicity::Public),
        ("our_const", ValueConstructorVariant::ModuleConstant { location: span(10, 10), module: "app".to_string() }, Publicity::Public),
    ];
    for (name, variant, publicity) in entries {
        e.insert_variable(name.to_string(), variant, int_type(), publicity, Deprecation::NotDeprecated);
    }
    let (shown, locations) = warnings_of(&mut e);
    assert!(locations.is_empty());
    let mut expected: Vec<String> = vec![
        Warning::UnusedLiteral { location: span(1, 1) },
        Warning::UnusedConstructor { location: span(3, 3), imported: true, name: "Rec".to_string() },
        Warning::UnusedPrivateFunction { location: span(4, 4), name: "helper".to_string() },
        Warning::UnusedImportedValue { location: span(90, 91), name: "imported_fn".to_string() },
        Warning::UnusedPrivateModuleConstant { location: span(8, 8), name: "secret".to_string() },
        Warning::UnusedImportedValue { location: span(9, 9), name: "their_const".to_string() },
    ]
    .iter()
    .map(|w| format!("{:?}", w))
    .collect();
    expected.sort();
    assert_eq!(shown, expected);
}

#[test]
fn unused_modules_then_aliases_of_used_modules() {
    let m = prelude();
    let mut e = env(&m);
    let _ = e.unused_modules.insert("list".to_string(), span(1, 2));
    let _ = e.unused_modules.insert("dict".to_string(), span(3, 4));
    let _ = e.unused_module_aliases.insert(
        "list".to_string(),
        UnusedModuleAlias { location: span(5, 6), module_name: "gleam/list".to_string() },
    );
    let _ = e.unused_module_aliases.insert(
        "s".to_string(),
        UnusedModuleAlias { location: span(7, 8), module_name: "gleam/set".to_string() },
    );
    let mut problems = Problems::new();
    let locations = e.convert_unused_to_warnings(&mut problems);
    assert_eq!(locations, vec![span(1, 2), span(3, 4), span(7, 8)]);
    let shown: Vec<String> = problems.warnings.iter().map(|w| format!("{:?}", w)).collect();
    let expected: Vec<String> = vec![
        Warning::UnusedImportedModule { location: span(1, 2), name: "list".to_string() },
        Warning::UnusedImportedModule { location: span(3, 4), name: "dict".to_string() },
        Warning::UnusedImportedModuleAlias { location: span(7, 8), alias: "s".to_string(), module_name: "gleam/set".to_string() },
    ]
    .iter()
    .map(|w| format!("{:?}", w))
    .collect();
    assert_eq!(shown, expected);
    // Reporting changes nothing in the environment.
    assert_eq!(e.unused_modules.len(), 2);
}

#[test]
fn in_order_reporting_follows_the_given_orders() {
    let m = prelude();
    let mut e = env(&m);
    e.insert_local_variable("a".to_string(), span(1, 2), int_type());
    e.insert_local_variable("b".to_string(), span(3, 4), int_type());
    let mut problems = Problems::new();
    let _ = e.unused_to_warnings_in_order(&mut problems, &vec![], &vec![2, 1, 99]);
    let shown: Vec<String> = problems.warnings.iter().map(|w| format!("{:?}", w)).collect();
    let expected: Vec<String> = vec![
        Warning::UnusedVariable { location: span(3, 4), how_to_ignore: Some("_b".to_string()) },
        Warning::UnusedVariable { location: span(1, 2), how_to_ignore: Some("_a".to_string()) },
    ]
    .iter()
    .map(|w| format!("{:?}", w))
    .collect();
    assert_eq!(shown, expected);
}
