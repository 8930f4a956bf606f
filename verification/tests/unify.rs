use type_env::types::{Publicity, Type, TypeList, TypeVar, TypeVarStore};
use type_env::unify::{
    flip_unify_error, unify, unify_enclosed_type, FunctionsMismatchReason, UnifyError, UnifyErrorSituation,
};

fn named(module: &str, name: &str, args: Vec<Type>) -> Type {
    Type::Named {
        publicity: Publicity::Public,
        package: String::new(),
        module: module.to_string(),
        name: name.to_string(),
        args: list(args),
    }
}

fn list(types: Vec<Type>) -> TypeList {
    let mut l = TypeList::Nil;
    for t in types.into_iter().rev() {
        l = TypeList::Cons { head: Box::new(t), tail: Box::new(l) };
    }
    l
}

fn int_type() -> Type {
    named("gleam", "Int", vec![])
}

fn string() -> Type {
    named("gleam", "String", vec![])
}

fn list_of(t: Type) -> Type {
    named("gleam", "List", vec![t])
}

fn func(args: Vec<Type>, retrn: Type) -> Type {
    Type::Fn { args: list(args), retrn: Box::new(retrn) }
}

fn show<T: std::fmt::Debug>(t: &T) -> String {
    format!("{:?}", t)
}

#[test]
fn unify_equal_named_types_succeeds_and_binds_nothing() {
    let mut store = TypeVarStore::new();
    let v = store.push_var(TypeVar::Unbound { id: 7 });
    assert!(unify(&mut store, list_of(int_type()), list_of(int_type())).is_ok());
    assert!(unify(&mut store, v.clone(), v).is_ok());
    assert!(matches!(store.get(0), TypeVar::Unbound { id: 7 }));
}

#[test]
fn unify_links_an_unbound_variable_to_the_other_type() {
    let mut store = TypeVarStore::new();
    let v = store.push_var(TypeVar::Unbound { id: 1 });
    assert!(unify(&mut store, v, int_type()).is_ok());
    match store.get(0) {
        TypeVar::Link { type_ } => assert_eq!(show(type_), show(&int_type())),
        other => panic!("expected a link, got {:?}", other),
    }
}

#[test]
fn unify_links_a_variable_on_the_right() {
    let mut store = TypeVarStore::new();
    let v = store.push_var(TypeVar::Unbound { id: 1 });
    assert!(unify(&mut store, string(), v).is_ok());
    match store.get(0) {
        TypeVar::Link { type_ } => assert_eq!(show(type_), show(&string())),
        other => panic!("expected a link, got {:?}", other),
    }
}

#[test]
fn unify_follows_links() {
    let mut store = TypeVarStore::new();
    let a = store.push_var(TypeVar::Unbound { id: 1 });
    let b = store.push_var(TypeVar::Unbound { id: 2 });
    assert!(unify(&mut store, a.clone(), int_type()).is_ok());
    // `a` is now `Int`, so unifying it with `b` binds `b` to what `a` reads as.
    assert!(unify(&mut store, b.clone(), a.clone()).is_ok());
    assert!(unify(&mut store, b, int_type()).is_ok());
    let err = unify(&mut store, a, string()).unwrap_err();
    match err {
        UnifyError::CouldNotUnify { expected, given, situation } => {
            assert_eq!(show(&expected), show(&int_type()));
            assert_eq!(show(&given), show(&string()));
            assert!(situation.is_none());
        },
        other => panic!("unexpected {:?}", other),
    }
}

#[test]
fn unify_different_named_types_fails() {
    let mut store = TypeVarStore::new();
    let err = unify(&mut store, int_type(), string()).unwrap_err();
    match err {
        UnifyError::CouldNotUnify { expected, given, situation } => {
            assert_eq!(show(&expected), show(&int_type()));
            assert_eq!(show(&given), show(&string()));
            assert!(situation.is_none());
        },
        other => panic!("unexpected {:?}", other),
    }
}

#[test]
fn unify_occurs_check_refuses_recursive_types() {
    let mut store = TypeVarStore::new();
    let v = store.push_var(TypeVar::Unbound { id: 3 });
    let err = unify(&mut store, v.clone(), list_of(v)).unwrap_err();
    assert!(matches!(err, UnifyError::RecursiveType));
    assert!(matches!(store.get(0), TypeVar::Unbound { id: 3 }));
}

#[test]
fn unify_generic_with_unbound_makes_it_generic() {
    let mut store = TypeVarStore::new();
    let g = store.push_var(TypeVar::Generic { id: 10 });
    let u = store.push_var(TypeVar::Unbound { id: 11 });
    assert!(unify(&mut store, g, u).is_ok());
    assert!(matches!(store.get(1), TypeVar::Generic { id: 10 }));
}

#[test]
fn unify_generic_with_named_type_fails_with_sides_kept() {
    let mut store = TypeVarStore::new();
    let g = store.push_var(TypeVar::Generic { id: 10 });
    let err = unify(&mut store, int_type(), g.clone()).unwrap_err();
    match err {
        UnifyError::CouldNotUnify { expected, given, situation } => {
            assert_eq!(show(&expected), show(&int_type()));
            assert_eq!(show(&given), show(&g));
            assert!(situation.is_none());
        },
        other => panic!("unexpected {:?}", other),
    }
}

#[test]
fn unify_named_argument_mismatch_reports_enclosing_types() {
    let mut store = TypeVarStore::new();
    let err = unify(&mut store, list_of(int_type()), list_of(string())).unwrap_err();
    match err {
        UnifyError::CouldNotUnify { expected, given, situation } => {
            assert_eq!(show(&expected), show(&list_of(int_type())));
            assert_eq!(show(&given), show(&list_of(string())));
            assert!(situation.is_none());
        },
        other => panic!("unexpected {:?}", other),
    }
}

#[test]
fn unify_named_types_of_different_arity_fail() {
    let mut store = TypeVarStore::new();
    let a = named("m", "Pair", vec![int_type()]);
    let b = named("m", "Pair", vec![int_type(), int_type()]);
    assert!(matches!(unify(&mut store, a, b), Err(UnifyError::CouldNotUnify { situation: None, .. })));
}

#[test]
fn unify_tuples() {
    let mut store = TypeVarStore::new();
    let v = store.push_var(TypeVar::Unbound { id: 1 });
    let t1 = Type::Tuple { elems: list(vec![int_type(), v]) };
    let t2 = Type::Tuple { elems: list(vec![int_type(), string()]) };
    assert!(unify(&mut store, t1, t2).is_ok());
    assert!(matches!(store.get(0), TypeVar::Link { .. }));
    let short = Type::Tuple { elems: list(vec![int_type()]) };
    let long = Type::Tuple { elems: list(vec![int_type(), int_type()]) };
    assert!(matches!(unify(&mut store, short, long), Err(UnifyError::CouldNotUnify { situation: None, .. })));
}

#[test]
fn unify_functions_of_different_arity() {
    let mut store = TypeVarStore::new();
    let f1 = func(vec![int_type()], int_type());
    let f2 = func(vec![int_type(), int_type()], int_type());
    match unify(&mut store, f1, f2).unwrap_err() {
        UnifyError::CouldNotUnify {
            situation: Some(UnifyErrorSituation::FunctionsMismatch {
                reason: FunctionsMismatchReason::Arity { expected, given },
            }),
            ..
        } => {
            assert_eq!(expected, 1);
            assert_eq!(given, 2);
        },
        other => panic!("unexpected {:?}", other),
    }
}

#[test]
fn unify_functions_with_a_wrong_argument() {
    let mut store = TypeVarStore::new();
    let f1 = func(vec![int_type(), int_type()], int_type());
    let f2 = func(vec![int_type(), string()], int_type());
    match unify(&mut store, f1, f2).unwrap_err() {
        UnifyError::CouldNotUnify {
            situation: Some(UnifyErrorSituation::FunctionsMismatch {
                reason: FunctionsMismatchReason::Argument { one, other, position },
            }),
            ..
        } => {
            assert_eq!(position, 1);
            assert_eq!(show(&one), show(&int_type()));
            assert_eq!(show(&other), show(&string()));
        },
        other => panic!("unexpected {:?}", other),
    }
}

#[test]
fn unify_functions_with_a_wrong_result() {
    let mut store = TypeVarStore::new();
    let f1 = func(vec![int_type()], int_type());
    let f2 = func(vec![int_type()], string());
    match unify(&mut store, f1, f2).unwrap_err() {
        UnifyError::CouldNotUnify {
            expected,
            situation: Some(UnifyErrorSituation::FunctionsMismatch {
                reason: FunctionsMismatchReason::Results { one, other },
            }),
            ..
        } => {
            assert_eq!(show(&expected), show(&func(vec![int_type()], int_type())));
            assert_eq!(show(&one), show(&int_type()));
            assert_eq!(show(&other), show(&string()));
        },
        other => panic!("unexpected {:?}", other),
    }
}

#[test]
fn unify_function_with_variables_binds_them() {
    let mut store = TypeVarStore::new();
    let a = store.push_var(TypeVar::Unbound { id: 1 });
    let b = store.push_var(TypeVar::Unbound { id: 2 });
    assert!(unify(&mut store, func(vec![a], b), func(vec![int_type()], string())).is_ok());
    assert!(matches!(store.get(0), TypeVar::Link { .. }));
    assert!(matches!(store.get(1), TypeVar::Link { .. }));
}

#[test]
fn flip_swaps_expected_and_given() {
    let e = UnifyError::CouldNotUnify { expected: int_type(), given: string(), situation: None };
    match flip_unify_error(e) {
        UnifyError::CouldNotUnify { expected, given, .. } => {
            assert_eq!(show(&expected), show(&string()));
            assert_eq!(show(&given), show(&int_type()));
        },
        other => panic!("unexpected {:?}", other),
    }
    assert!(matches!(flip_unify_error(UnifyError::RecursiveType), UnifyError::RecursiveType));
}

#[test]
fn enclosed_failure_is_reported_on_the_enclosing_types() {
    let inner = Err(UnifyError::CouldNotUnify { expected: int_type(), given: string(), situation: None });
    match unify_enclosed_type(list_of(int_type()), list_of(string()), inner) {
        Err(UnifyError::CouldNotUnify { expected, given, .. }) => {
            assert_eq!(show(&expected), show(&list_of(int_type())));
            assert_eq!(show(&given), show(&list_of(string())));
        },
        other => panic!("unexpected {:?}", other),
    }
    assert!(unify_enclosed_type(int_type(), int_type(), Ok(())).is_ok());
    assert!(matches!(unify_enclosed_type(int_type(), int_type(), Err(UnifyError::RecursiveType)), Err(UnifyError::RecursiveType)));
}
