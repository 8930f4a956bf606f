use type_env::environment::{Environment, Target, TargetSupport, UniqueIdGenerator, PRELUDE_MODULE_NAME};
use type_env::instantiate::Hydrator;
use type_env::module::ModuleInterface;
use type_env::name_map::NameMap;
use type_env::types::{Publicity, Type, TypeList, TypeVar, TypeVarStore};
use type_env::unify::unify;

fn prelude() -> im::HashMap<String, ModuleInterface> {
    let mut m = im::HashMap::new();
    m.insert(
        PRELUDE_MODULE_NAME.to_string(),
        ModuleInterface {
            name: PRELUDE_MODULE_NAME.to_string(),
            package: String::new(),
            types: NameMap::new(),
            types_value_constructors: NameMap::new(),
            values: NameMap::new(),
            accessors: NameMap::new(),
        },
    );
    m
}

fn env(modules: &im::HashMap<String, ModuleInterface>) -> Environment<'_> {
    Environment::new(
        UniqueIdGenerator::new(),
        "pkg".to_string(),
        "main".to_string(),
        Target::JavaScript,
        modules,
        TargetSupport::NotEnforced,
        TypeVarStore::new(),
    )
}

fn list_of(t: Type) -> Type {
    Type::Named {
        publicity: Publicity::Public,
        package: String::new(),
        module: "gleam".to_string(),
        name: "List".to_string(),
        args: TypeList::Cons { head: Box::new(t), tail: Box::new(TypeList::Nil) },
    }
}

fn int_type() -> Type {
    Type::Named {
        publicity: Publicity::Public,
        package: String::new(),
        module: "gleam".to_string(),
        name: "Int".to_string(),
        args: TypeList::Nil,
    }
}

fn no_rigid() -> Hydrator {
    Hydrator { rigid_type_names: NameMap::new() }
}

fn show<T: std::fmt::Debug>(t: &T) -> String {
    format!("{:?}", t)
}

#[test]
fn generic_variables_become_fresh_unbound_variables() {
    let m = prelude();
    let mut e = env(&m);
    let g = e.new_generic_var();
    assert!(matches!(e.type_vars.get(0), TypeVar::Generic { id: 1 }));
    let mut ids = im::HashMap::new();
    let t = e.instantiate(Type::Fn { args: TypeList::Cons { head: Box::new(g.clone()), tail: Box::new(TypeList::Nil) }, retrn: Box::new(list_of(g)) }, &mut ids, &no_rigid());
    // One fresh variable, used for both occurrences of the generic one.
    assert_eq!(e.type_vars.len(), 2);
    assert!(matches!(e.type_vars.get(1), TypeVar::Unbound { id: 2 }));
    let expected = Type::Fn {
        args: TypeList::Cons { head: Box::new(Type::Var { type_: 1 }), tail: Box::new(TypeList::Nil) },
        retrn: Box::new(list_of(Type::Var { type_: 1 })),
    };
    assert_eq!(show(&t), show(&expected));
    assert_eq!(ids.len(), 1);
    assert_eq!(show(ids.get(&1).unwrap()), show(&Type::Var { type_: 1 }));
}

#[test]
fn instantiating_again_with_the_same_map_changes_nothing() {
    let m = prelude();
    let mut e = env(&m);
    let g = e.new_generic_var();
    let mut ids = im::HashMap::new();
    let first = e.instantiate(list_of(g.clone()), &mut ids, &no_rigid());
    let next = e.ids.next_id;
    let second = e.instantiate(list_of(g), &mut ids, &no_rigid());
    assert_eq!(show(&first), show(&second));
    assert_eq!(e.type_vars.len(), 2);
    assert_eq!(e.ids.next_id, next);
    assert_eq!(ids.len(), 1);
}

#[test]
fn rigid_and_unbound_variables_stay() {
    let m = prelude();
    let mut e = env(&m);
    let g = e.new_generic_var();
    let u = e.new_unbound_var();
    let mut rigid = NameMap::new();
    let _ = rigid.insert("a".to_string(), 1u64);
    let hydrator = Hydrator { rigid_type_names: rigid };
    assert!(hydrator.is_rigid(1));
    assert!(!hydrator.is_rigid(2));
    let mut ids = im::HashMap::new();
    let t = e.instantiate(Type::Tuple { elems: TypeList::Cons { head: Box::new(g.clone()), tail: Box::new(TypeList::Cons { head: Box::new(u.clone()), tail: Box::new(TypeList::Nil) }) } }, &mut ids, &hydrator);
    assert_eq!(show(&t), show(&Type::Tuple { elems: TypeList::Cons { head: Box::new(g), tail: Box::new(TypeList::Cons { head: Box::new(u), tail: Box::new(TypeList::Nil) }) } }));
    assert!(ids.is_empty());
    assert_eq!(e.type_vars.len(), 2);
}

#[test]
fn instantiation_reads_through_links_and_keeps_existing_entries() {
    let m = prelude();
    let mut e = env(&m);
    let g = e.new_generic_var();
    let u = e.new_unbound_var();
    assert!(unify(&mut e.type_vars, u.clone(), list_of(g)).is_ok());
    let mut ids = im::HashMap::new();
    let _ = ids.insert(1u64, int_type());
    let t = e.instantiate(u, &mut ids, &no_rigid());
    assert_eq!(show(&t), show(&list_of(int_type())));
    assert_eq!(e.type_vars.len(), 2);
    assert_eq!(ids.len(), 1);
}

#[test]
fn fresh_variables_follow_the_order_of_mention() {
    let m = prelude();
    let mut e = env(&m);
    let a = e.new_generic_var();
    let b = e.new_generic_var();
    let mut ids = im::HashMap::new();
    // `b` is met first, so it gets the first fresh cell.
    let t = Type::Tuple {
        elems: TypeList::Cons {
            head: Box::new(b.clone()),
            tail: Box::new(TypeList::Cons { head: Box::new(a), tail: Box::new(TypeList::Cons { head: Box::new(b), tail: Box::new(TypeList::Nil) }) }),
        },
    };
    let r = e.instantiate(t, &mut ids, &no_rigid());
    assert_eq!(e.type_vars.len(), 4);
    assert_eq!(show(ids.get(&2).unwrap()), show(&Type::Var { type_: 2 }));
    assert_eq!(show(ids.get(&1).unwrap()), show(&Type::Var { type_: 3 }));
    assert!(matches!(e.type_vars.get(2), TypeVar::Unbound { id: 3 }));
    assert!(matches!(e.type_vars.get(3), TypeVar::Unbound { id: 4 }));
    let expected = Type::Tuple {
        elems: TypeList::Cons {
            head: Box::new(Type::Var { type_: 2 }),
            tail: Box::new(TypeList::Cons { head: Box::new(Type::Var { type_: 3 }), tail: Box::new(TypeList::Cons { head: Box::new(Type::Var { type_: 2 }), tail: Box::new(TypeList::Nil) }) }),
        },
    };
    assert_eq!(show(&r), show(&expected));
}
