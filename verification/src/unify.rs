//! Unification of two types, binding unbound type variables.

use vstd::prelude::*;
use crate::types::{copy_type, list_below, type_below, StoreView, Type, TypeList, TypeVar, TypeVarStore};
use crate::resolution::{
    cell_reaches, has_unbound, has_unbound_list, lemma_below_any, lemma_holds, lemma_link_wf,
    lemma_reaches_has_unbound, lemma_req_bounds, lemma_req_extend, lemma_req_extend_list,
    lemma_req_link_left, lemma_req_link_right, lemma_req_unlink_right, lemma_req_refl, lemma_req_sym, lemma_teq_req,
    link_of, link_target, linked_store, lemma_set_generic_wf, rank_of, reaches, req, req_list,
    same_type, set_store, teq, teq_list, unbound_count,
};

verus! {

/// Why two function types could not be unified.
#[derive(Debug)]
pub enum FunctionsMismatchReason {
    Results { one: Type, other: Type },
    Arity { expected: usize, given: usize },
    Argument { one: Type, other: Type, position: usize },
}

/// The situation in which two types could not be unified.
#[derive(Debug)]
pub enum UnifyErrorSituation {
    FunctionsMismatch { reason: FunctionsMismatchReason },
}

/// Why two types could not be unified.
#[derive(Debug)]
pub enum UnifyError {
    CouldNotUnify { expected: Type, given: Type, situation: Option<UnifyErrorSituation> },
    ExtraVarInAlternativePattern { name: String },
    MissingVarInAlternativePattern { name: String },
    DuplicateVarInPattern { name: String },
    RecursiveType,
}

pub open spec fn could_not_unify(t1: Type, t2: Type) -> UnifyError {
    UnifyError::CouldNotUnify { expected: t1, given: t2, situation: None }
}

/// The error seen from the other side: expected and given swap places.
pub open spec fn spec_flip_unify_error(e: UnifyError) -> UnifyError {
    match e {
        UnifyError::CouldNotUnify { expected, given, situation } => UnifyError::CouldNotUnify {
            expected: given,
            given: expected,
            situation,
        },
        other => other,
    }
}

/// A failure inside an enclosing type is reported on the enclosing types.
pub open spec fn spec_unify_enclosed_type(e1: Type, e2: Type, result: Result<(), UnifyError>) -> Result<(), UnifyError> {
    match result {
        Err(UnifyError::CouldNotUnify { situation, .. }) => Err(
            UnifyError::CouldNotUnify { expected: e1, given: e2, situation },
        ),
        _ => result,
    }
}

pub open spec fn spec_unify_wrong_arity(t1: Type, n1: usize, t2: Type, n2: usize) -> UnifyError {
    UnifyError::CouldNotUnify {
        expected: t1,
        given: t2,
        situation: Some(
            UnifyErrorSituation::FunctionsMismatch {
                reason: FunctionsMismatchReason::Arity { expected: n1, given: n2 },
            },
        ),
    }
}

pub open spec fn spec_unify_wrong_arguments(t1: Type, a: Type, t2: Type, b: Type, i: usize) -> UnifyError {
    UnifyError::CouldNotUnify {
        expected: t1,
        given: t2,
        situation: Some(
            UnifyErrorSituation::FunctionsMismatch {
                reason: FunctionsMismatchReason::Argument { one: a, other: b, position: i },
            },
        ),
    }
}

pub open spec fn spec_unify_wrong_returns(t1: Type, r1: Type, t2: Type, r2: Type) -> UnifyError {
    UnifyError::CouldNotUnify {
        expected: t1,
        given: t2,
        situation: Some(
            UnifyErrorSituation::FunctionsMismatch {
                reason: FunctionsMismatchReason::Results { one: r1, other: r2 },
            },
        ),
    }
}

pub fn flip_unify_error(e: UnifyError) -> (r: UnifyError)
    ensures
        r == spec_flip_unify_error(e),
{
    match e {
        UnifyError::CouldNotUnify { expected, given, situation } => UnifyError::CouldNotUnify {
            expected: given,
            given: expected,
            situation,
        },
        other => other,
    }
}

pub fn unify_enclosed_type(e1: Type, e2: Type, result: Result<(), UnifyError>) -> (r: Result<(), UnifyError>)
    ensures
        r == spec_unify_enclosed_type(e1, e2, result),
{
    match result {
        Err(UnifyError::CouldNotUnify { situation, .. }) => Err(
            UnifyError::CouldNotUnify { expected: e1, given: e2, situation },
        ),
        _ => result,
    }
}

pub fn unify_wrong_arity(t1: &Type, n1: usize, t2: &Type, n2: usize) -> (r: UnifyError)
    ensures
        r == spec_unify_wrong_arity(*t1, n1, *t2, n2),
{
    UnifyError::CouldNotUnify {
        expected: copy_type(t1),
        given: copy_type(t2),
        situation: Some(
            UnifyErrorSituation::FunctionsMismatch {
                reason: FunctionsMismatchReason::Arity { expected: n1, given: n2 },
            },
        ),
    }
}

pub fn unify_wrong_arguments(t1: &Type, a: &Type, t2: &Type, b: &Type, i: usize) -> (r: UnifyError)
    ensures
        r == spec_unify_wrong_arguments(*t1, *a, *t2, *b, i),
{
    UnifyError::CouldNotUnify {
        expected: copy_type(t1),
        given: copy_type(t2),
        situation: Some(
            UnifyErrorSituation::FunctionsMismatch {
                reason: FunctionsMismatchReason::Argument {
                    one: copy_type(a),
                    other: copy_type(b),
                    position: i,
                },
            },
        ),
    }
}

pub fn unify_wrong_returns(t1: &Type, r1: &Type, t2: &Type, r2: &Type) -> (r: UnifyError)
    ensures
        r == spec_unify_wrong_returns(*t1, *r1, *t2, *r2),
{
    UnifyError::CouldNotUnify {
        expected: copy_type(t1),
        given: copy_type(t2),
        situation: Some(
            UnifyErrorSituation::FunctionsMismatch {
                reason: FunctionsMismatchReason::Results { one: copy_type(r1), other: copy_type(r2) },
            },
        ),
    }
}

/// The number of types in a list, counted in a `usize`.
pub open spec fn list_count(l: TypeList) -> usize
    decreases l,
{
    match l {
        TypeList::Nil => 0,
        TypeList::Cons { tail, .. } => list_count(*tail).wrapping_add(1),
    }
}

/// The number of types in a list.
pub open spec fn list_len(l: TypeList) -> nat
    decreases l,
{
    match l {
        TypeList::Nil => 0,
        TypeList::Cons { tail, .. } => list_len(*tail) + 1,
    }
}

pub fn list_length(l: &TypeList) -> (n: usize)
    ensures
        n == list_count(*l),
    decreases l,
{
    match l {
        TypeList::Nil => 0,
        TypeList::Cons { tail, .. } => list_length(tail).wrapping_add(1),
    }
}

fn same_length(l1: &TypeList, l2: &TypeList) -> (r: bool)
    ensures
        r == (list_len(*l1) == list_len(*l2)),
    decreases l1,
{
    match (l1, l2) {
        (TypeList::Nil, TypeList::Nil) => true,
        (TypeList::Cons { tail: t1, .. }, TypeList::Cons { tail: t2, .. }) => same_length(t1, t2),
        _ => false,
    }
}

/// How failures inside a list of types are reported.
#[derive(Clone, Copy)]
pub enum ListMode {
    /// On the enclosing named or tuple types.
    Enclosed,
    /// As a mismatch of the argument at its position.
    Arguments,
}

pub open spec fn tag(t: Type) -> nat {
    if t is Var {
        0
    } else {
        1
    }
}

/// The bound to use after a step that may have changed the store.
pub open spec fn next_bound(before: StoreView, after: StoreView, b: nat) -> nat {
    if after == before {
        b
    } else {
        after.bound
    }
}

/// What unifying `t1` with `t2` returns, and the store it leaves, given a
/// store `s` in which the variables of `t1` have ranks below `r1` and those
/// of `t2` below `r2`.
pub open spec fn unify_model(s: StoreView, t1: Type, t2: Type, r1: nat, r2: nat) -> (Result<(), UnifyError>, StoreView)
    decreases unbound_count(s.cells), r1 + r2, tag(t1), t1,
{
    if !(s.wf() && type_below(t1, s.len(), s.rank, r1) && type_below(t2, s.len(), s.rank, r2)) {
        (Ok(()), s)
    } else if teq(s, t1, t2, r1, r2) {
        (Ok(()), s)
    } else if link_of(s, t2, r2) {
        unify_model(s, t1, link_target(s, t2), r1, rank_of(s, t2))
    } else if t1 is Var {
        let v1 = t1->type_ as int;
        match s.cells[v1] {
            TypeVar::Link { type_: u1 } => unify_model(s, u1, t2, s.rank[v1], r2),
            TypeVar::Unbound { id } => if has_unbound(s, t2, id, r2) {
                (Err(UnifyError::RecursiveType), s)
            } else {
                (Ok(()), linked_store(s, v1, t2))
            },
            TypeVar::Generic { id } => if t2 is Var && s.cells[t2->type_ as int] is Unbound {
                (Ok(()), set_store(s, t2->type_ as int, TypeVar::Generic { id }))
            } else {
                (Err(could_not_unify(t1, t2)), s)
            },
        }
    } else if t2 is Var {
        let (r, s2) = unify_model(s, t2, t1, r2, r1);
        (
            match r {
                Ok(()) => Ok(()),
                Err(e) => Err(spec_flip_unify_error(e)),
            },
            s2,
        )
    } else {
        match t1 {
            Type::Named { module: m1, name: n1, args: a1, .. } => match t2 {
                Type::Named { module: m2, name: n2, args: a2, .. } => if m1@ == m2@ && n1@ == n2@
                    && list_len(a1) == list_len(a2) {
                    unify_list_model(s, ListMode::Enclosed, t1, t2, a1, a2, 0, r1, r2)
                } else {
                    (Err(could_not_unify(t1, t2)), s)
                },
                _ => (Err(could_not_unify(t1, t2)), s),
            },
            Type::Tuple { elems: e1 } => match t2 {
                Type::Tuple { elems: e2 } => if list_len(e1) == list_len(e2) {
                    unify_list_model(s, ListMode::Enclosed, t1, t2, e1, e2, 0, r1, r2)
                } else {
                    (Err(could_not_unify(t1, t2)), s)
                },
                _ => (Err(could_not_unify(t1, t2)), s),
            },
            Type::Fn { args: a1, retrn: q1 } => match t2 {
                Type::Fn { args: a2, retrn: q2 } => if list_len(a1) != list_len(a2) {
                    (Err(spec_unify_wrong_arity(t1, list_count(a1), t2, list_count(a2))), s)
                } else {
                    let (ra, s2) = unify_list_model(s, ListMode::Arguments, t1, t2, a1, a2, 0, r1, r2);
                    if ra is Err {
                        (ra, s2)
                    } else if s2 == s || unbound_count(s2.cells) < unbound_count(s.cells) {
                        let (rr, s3) = unify_model(
                            s2,
                            *q1,
                            *q2,
                            next_bound(s, s2, r1),
                            next_bound(s, s2, r2),
                        );
                        (
                            match rr {
                                Ok(()) => Ok(()),
                                Err(_) => Err(spec_unify_wrong_returns(t1, *q1, t2, *q2)),
                            },
                            s3,
                        )
                    } else {
                        (ra, s2)
                    }
                },
                _ => (Err(could_not_unify(t1, t2)), s),
            },
            Type::Var { .. } => (Ok(()), s),
        }
    }
}

/// Unifying two lists of types pairwise, from `idx` on, inside the types
/// `t1` and `t2`.
pub open spec fn unify_list_model(
    s: StoreView,
    mode: ListMode,
    t1: Type,
    t2: Type,
    l1: TypeList,
    l2: TypeList,
    idx: usize,
    r1: nat,
    r2: nat,
) -> (Result<(), UnifyError>, StoreView)
    decreases unbound_count(s.cells), r1 + r2, 1nat, l1,
{
    match l1 {
        TypeList::Nil => (Ok(()), s),
        TypeList::Cons { head: h1, tail: k1 } => match l2 {
            TypeList::Nil => (Ok(()), s),
            TypeList::Cons { head: h2, tail: k2 } => {
                let (r, s2) = unify_model(s, *h1, *h2, r1, r2);
                match r {
                    Err(e) => (
                        match mode {
                            ListMode::Enclosed => spec_unify_enclosed_type(t1, t2, Err(e)),
                            ListMode::Arguments => Err(
                                spec_unify_wrong_arguments(t1, *h1, t2, *h2, idx),
                            ),
                        },
                        s2,
                    ),
                    Ok(()) => if s2 == s || unbound_count(s2.cells) < unbound_count(s.cells) {
                        unify_list_model(
                            s2,
                            mode,
                            t1,
                            t2,
                            *k1,
                            *k2,
                            idx.wrapping_add(1),
                            next_bound(s, s2, r1),
                            next_bound(s, s2, r2),
                        )
                    } else {
                        (Ok(()), s2)
                    },
                }
            },
        },
    }
}


/// Whether two types are equal as the derived `==` compares them.
pub fn types_equal(store: &TypeVarStore, t1: &Type, t2: &Type, Ghost(b1): Ghost<nat>, Ghost(b2): Ghost<nat>) -> (r: bool)
    requires
        store@.wf(),
        type_below(*t1, store@.len(), store@.rank, b1),
        type_below(*t2, store@.len(), store@.rank, b2),
    ensures
        r == teq(store@, *t1, *t2, b1, b2),
    decreases b1 + b2, t1,
{
    match t1 {
        Type::Named { publicity: p1, package: k1, module: m1, name: n1, args: a1 } => match t2 {
            Type::Named { publicity: p2, package: k2, module: m2, name: n2, args: a2 } => {
                p1.same_as(p2) && *k1 == *k2 && *m1 == *m2 && *n1 == *n2 && lists_equal(
                    store,
                    a1,
                    a2,
                    Ghost(b1),
                    Ghost(b2),
                )
            },
            _ => false,
        },
        Type::Fn { args: a1, retrn: r1 } => match t2 {
            Type::Fn { args: a2, retrn: r2 } => lists_equal(store, a1, a2, Ghost(b1), Ghost(b2))
                && types_equal(store, r1, r2, Ghost(b1), Ghost(b2)),
            _ => false,
        },
        Type::Var { type_: v1 } => match t2 {
            Type::Var { type_: v2 } => {
                let ghost s = store@;
                match (store.get(*v1), store.get(*v2)) {
                    (TypeVar::Unbound { id: x }, TypeVar::Unbound { id: y }) => *x == *y,
                    (TypeVar::Generic { id: x }, TypeVar::Generic { id: y }) => *x == *y,
                    (TypeVar::Link { type_: u1 }, TypeVar::Link { type_: u2 }) => types_equal(
                        store,
                        u1,
                        u2,
                        Ghost(s.rank[*v1 as int]),
                        Ghost(s.rank[*v2 as int]),
                    ),
                    _ => false,
                }
            },
            _ => false,
        },
        Type::Tuple { elems: e1 } => match t2 {
            Type::Tuple { elems: e2 } => lists_equal(store, e1, e2, Ghost(b1), Ghost(b2)),
            _ => false,
        },
    }
}

pub fn lists_equal(store: &TypeVarStore, l1: &TypeList, l2: &TypeList, Ghost(b1): Ghost<nat>, Ghost(b2): Ghost<nat>) -> (r: bool)
    requires
        store@.wf(),
        list_below(*l1, store@.len(), store@.rank, b1),
        list_below(*l2, store@.len(), store@.rank, b2),
    ensures
        r == teq_list(store@, *l1, *l2, b1, b2),
    decreases b1 + b2, l1,
{
    match l1 {
        TypeList::Nil => match l2 {
            TypeList::Nil => true,
            _ => false,
        },
        TypeList::Cons { head: h1, tail: k1 } => match l2 {
            TypeList::Cons { head: h2, tail: k2 } => types_equal(store, h1, h2, Ghost(b1), Ghost(b2))
                && lists_equal(store, k1, k2, Ghost(b1), Ghost(b2)),
            TypeList::Nil => false,
        },
    }
}

/// The occurs check: fails when `t`, read through links, mentions the
/// unbound variable `own_id`, which could not then be linked to `t`.
pub fn unify_unbound_type(store: &TypeVarStore, t: &Type, own_id: u64, Ghost(b): Ghost<nat>) -> (r: Result<(), UnifyError>)
    requires
        store@.wf(),
        type_below(*t, store@.len(), store@.rank, b),
    ensures
        r is Ok <==> !has_unbound(store@, *t, own_id, b),
        r is Err ==> r == Err::<(), UnifyError>(UnifyError::RecursiveType),
    decreases b, t,
{
    match t {
        Type::Var { type_: v } => {
            let ghost s = store@;
            match store.get(*v) {
                TypeVar::Link { type_: u } => unify_unbound_type(store, u, own_id, Ghost(s.rank[*v as int])),
                TypeVar::Unbound { id } => if *id == own_id {
                    Err(UnifyError::RecursiveType)
                } else {
                    Ok(())
                },
                TypeVar::Generic { .. } => Ok(()),
            }
        },
        Type::Named { args, .. } => unify_unbound_list(store, args, own_id, Ghost(b)),
        Type::Fn { args, retrn } => {
            match unify_unbound_list(store, args, own_id, Ghost(b)) {
                Err(e) => Err(e),
                Ok(()) => unify_unbound_type(store, retrn, own_id, Ghost(b)),
            }
        },
        Type::Tuple { elems } => unify_unbound_list(store, elems, own_id, Ghost(b)),
    }
}

fn unify_unbound_list(store: &TypeVarStore, l: &TypeList, own_id: u64, Ghost(b): Ghost<nat>) -> (r: Result<(), UnifyError>)
    requires
        store@.wf(),
        list_below(*l, store@.len(), store@.rank, b),
    ensures
        r is Ok <==> !has_unbound_list(store@, *l, own_id, b),
        r is Err ==> r == Err::<(), UnifyError>(UnifyError::RecursiveType),
    decreases b, l,
{
    match l {
        TypeList::Nil => Ok(()),
        TypeList::Cons { head, tail } => match unify_unbound_type(store, head, own_id, Ghost(b)) {
            Err(e) => Err(e),
            Ok(()) => unify_unbound_list(store, tail, own_id, Ghost(b)),
        },
    }
}

/// Link the unbound cell `v` to `t`, which does not reach it.
fn link_var(store: &mut TypeVarStore, v: usize, t: Type, Ghost(b): Ghost<nat>)
    requires
        old(store)@.wf(),
        v < old(store)@.len(),
        old(store)@.cells[v as int] is Unbound,
        type_below(t, old(store)@.len(), old(store)@.rank, b),
        !reaches(old(store)@, t, v as int, b),
    ensures
        final(store)@ == linked_store(old(store)@, v as int, t),
{
    let ghost s = store@;
    let ghost tt = t;
    store.cells.set(v, TypeVar::Link { type_: t });
    store.rank = Ghost(linked_store(s, v as int, tt).rank);
    store.bound = Ghost(2 * s.bound);
}

/// Store `var` in the cell `v`, keeping the ranks.
fn set_var(store: &mut TypeVarStore, v: usize, var: TypeVar)
    requires
        v < old(store)@.len(),
    ensures
        final(store)@ == set_store(old(store)@, v as int, var),
{
    store.cells.set(v, var);
}

/// What unifying leaves of a store: well formed, only unbound cells bound,
/// and either unchanged or with fewer unbound cells.
pub open spec fn unify_keeps(s: StoreView, s2: StoreView) -> bool {
    &&& s2.wf()
    &&& s2.len() == s.len()
    &&& s.extended_by(s2)
    &&& (s2 == s || unbound_count(s2.cells) < unbound_count(s.cells))
    &&& (s.unique_unbound_ids() ==> s2.unique_unbound_ids())
    &&& forall|j: int| 0 <= j < s2.cells.len() && (#[trigger] s2.cells[j]) is Unbound ==> s2.cells[j] == s.cells[j]
}

proof fn lemma_keeps_trans(s1: StoreView, s2: StoreView, s3: StoreView)
    requires
        unify_keeps(s1, s2),
        unify_keeps(s2, s3),
    ensures
        unify_keeps(s1, s3),
{
    assert forall|j: int| 0 <= j < s1.cells.len() && !(#[trigger] s1.cells[j] is Unbound) implies s3.cells[j] == s1.cells[j] by {
        assert(s2.cells[j] == s1.cells[j]);
    }
}


fn unify_inner(store: &mut TypeVarStore, t1: Type, t2: Type, Ghost(r1): Ghost<nat>, Ghost(r2): Ghost<nat>) -> (res: Result<(), UnifyError>)
    requires
        old(store)@.wf(),
        type_below(t1, old(store)@.len(), old(store)@.rank, r1),
        type_below(t2, old(store)@.len(), old(store)@.rank, r2),
    ensures
        unify_model(old(store)@, t1, t2, r1, r2) == (res, final(store)@),
        unify_keeps(old(store)@, final(store)@),
        old(store)@.unique_unbound_ids() && res is Ok ==> same_type(final(store)@, t1, t2),
    decreases unbound_count(old(store)@.cells), r1 + r2, tag(t1), t1,
{
    let ghost s0 = store@;
    proof {
        lemma_holds(s0, t1, r1);
        lemma_holds(s0, t2, r2);
    }
    if types_equal(store, &t1, &t2, Ghost(r1), Ghost(r2)) {
        proof {
            lemma_teq_req(s0, t1, t2, r1, r2);
            lemma_req_bounds(s0, t1, t2, r1, r2, s0.bound, s0.bound);
        }
        return Ok(());
    }
    // A link on the right is followed first.
    let t2_link: Option<Type> = match &t2 {
        Type::Var { type_: v2 } => match store.get(*v2) {
            TypeVar::Link { type_: u2 } => Some(copy_type(u2)),
            _ => None,
        },
        _ => None,
    };
    if let Some(u2) = t2_link {
        let ghost v2 = t2->type_ as int;
        assert(link_of(s0, t2, r2));
        let res = unify_inner(store, t1, u2, Ghost(r1), Ghost(s0.rank[v2]));
        proof {
            let s = store@;
            if s0.unique_unbound_ids() && res is Ok {
                assert(s.cells[v2] == s0.cells[v2]);
                lemma_holds(s, u2, s.rank[v2]);
                lemma_below_any(t1, s0.len(), s0.rank, r1, s.rank, s.bound);
                lemma_req_bounds(s, t1, u2, s.bound, s.bound, s.bound, s.rank[v2]);
                lemma_req_link_right(s, t1, t2, s.bound, s.bound);
            }
        }
        return res;
    }
    if let Type::Var { type_: v1 } = &t1 {
        let v1 = *v1;
        let cell1 = store.get(v1);
        match cell1 {
            TypeVar::Link { type_: u1 } => {
                let u1 = copy_type(u1);
                let res = unify_inner(store, u1, t2, Ghost(s0.rank[v1 as int]), Ghost(r2));
                proof {
                    let s = store@;
                    if s0.unique_unbound_ids() && res is Ok {
                        assert(s.cells[v1 as int] == s0.cells[v1 as int]);
                        lemma_holds(s, u1, s.rank[v1 as int]);
                        lemma_below_any(t2, s0.len(), s0.rank, r2, s.rank, s.bound);
                        lemma_req_bounds(s, u1, t2, s.bound, s.bound, s.rank[v1 as int], s.bound);
                        lemma_req_link_left(s, t1, t2, s.bound, s.bound);
                    }
                }
                return res;
            },
            TypeVar::Unbound { id } => {
                let id = *id;
                match unify_unbound_type(store, &t2, id, Ghost(r2)) {
                    Err(e) => {
                        return Err(e);
                    },
                    Ok(()) => {},
                }
                proof {
                    if reaches(s0, t2, v1 as int, r2) {
                        lemma_reaches_has_unbound(s0, t2, v1 as int, id, r2);
                    }
                    lemma_link_wf(s0, v1 as int, t2, r2);
                }
                let ghost tt2 = t2;
                link_var(store, v1, t2, Ghost(r2));
                proof {
                    let s = store@;
                    if s0.unique_unbound_ids() {
                        lemma_holds(s, tt2, s.rank[v1 as int]);
                        lemma_below_any(tt2, s0.len(), s0.rank, r2, s.rank, s.bound);
                        lemma_req_refl(s, tt2, s.rank[v1 as int], s.bound);
                        lemma_req_link_left(s, t1, tt2, s.bound, s.bound);
                    }
                }
                return Ok(());
            },
            TypeVar::Generic { id } => {
                let id = *id;
                let v2_unbound: Option<usize> = match &t2 {
                    Type::Var { type_: v2 } => if store.get(*v2).is_unbound() {
                        Some(*v2)
                    } else {
                        None
                    },
                    _ => None,
                };
                if let Some(v2) = v2_unbound {
                    proof {
                        lemma_set_generic_wf(s0, v2 as int, id);
                    }
                    set_var(store, v2, TypeVar::Generic { id });
                    return Ok(());
                }
                return Err(UnifyError::CouldNotUnify { expected: t1, given: t2, situation: None });
            },
        }
    }
    if let Type::Var { .. } = &t2 {
        let res = unify_inner(store, t2, t1, Ghost(r2), Ghost(r1));
        proof {
            let s = store@;
            if s0.unique_unbound_ids() && res is Ok {
                lemma_req_sym(s, t2, t1, s.bound, s.bound);
            }
        }
        return match res {
            Ok(()) => Ok(()),
            Err(e) => Err(flip_unify_error(e)),
        };
    }
    unify_structure(store, t1, t2, Ghost(r1), Ghost(r2))
}

/// Unifying two types neither of which is a variable.
fn unify_structure(store: &mut TypeVarStore, t1: Type, t2: Type, Ghost(r1): Ghost<nat>, Ghost(r2): Ghost<nat>) -> (res: Result<(), UnifyError>)
    requires
        old(store)@.wf(),
        type_below(t1, old(store)@.len(), old(store)@.rank, r1),
        type_below(t2, old(store)@.len(), old(store)@.rank, r2),
        !(t1 is Var),
        !(t2 is Var),
        !teq(old(store)@, t1, t2, r1, r2),
    ensures
        unify_model(old(store)@, t1, t2, r1, r2) == (res, final(store)@),
        unify_keeps(old(store)@, final(store)@),
        old(store)@.unique_unbound_ids() && res is Ok ==> same_type(final(store)@, t1, t2),
    decreases unbound_count(old(store)@.cells), r1 + r2, tag(t1), t1, 0nat,
{
    let ghost s0 = store@;
    let kind: u8 = match (&t1, &t2) {
        (Type::Named { module: m1, name: n1, args: a1, .. }, Type::Named { module: m2, name: n2, args: a2, .. }) => {
            if *m1 == *m2 && *n1 == *n2 && same_length(a1, a2) {
                1
            } else {
                0
            }
        },
        (Type::Tuple { elems: e1 }, Type::Tuple { elems: e2 }) => {
            if same_length(e1, e2) {
                2
            } else {
                0
            }
        },
        (Type::Fn { args: a1, .. }, Type::Fn { args: a2, .. }) => {
            if same_length(a1, a2) {
                3
            } else {
                4
            }
        },
        _ => 0,
    };
    if kind == 0 {
        return Err(UnifyError::CouldNotUnify { expected: t1, given: t2, situation: None });
    }
    if kind == 4 {
        let err = match (&t1, &t2) {
            (Type::Fn { args: a1, .. }, Type::Fn { args: a2, .. }) => unify_wrong_arity(
                &t1,
                list_length(a1),
                &t2,
                list_length(a2),
            ),
            _ => UnifyError::RecursiveType,
        };
        return Err(err);
    }
    match (&t1, &t2) {
        (Type::Named { args: a1, .. }, Type::Named { args: a2, .. }) => {
            let res = unify_list(store, ListMode::Enclosed, &t1, &t2, a1, a2, 0, Ghost(r1), Ghost(r2));
            res
        },
        (Type::Tuple { elems: e1 }, Type::Tuple { elems: e2 }) => {
            let res = unify_list(store, ListMode::Enclosed, &t1, &t2, e1, e2, 0, Ghost(r1), Ghost(r2));
            res
        },
        (Type::Fn { args: a1, retrn: q1 }, Type::Fn { args: a2, retrn: q2 }) => {
            let ra = unify_list(store, ListMode::Arguments, &t1, &t2, a1, a2, 0, Ghost(r1), Ghost(r2));
            if ra.is_err() {
                return ra;
            }
            let ghost s1 = store@;
            proof {
                lemma_below_any(**q1, s0.len(), s0.rank, r1, s1.rank, s1.bound);
                lemma_below_any(**q2, s0.len(), s0.rank, r2, s1.rank, s1.bound);
            }
            let rr = unify_inner(
                store,
                copy_type(q1),
                copy_type(q2),
                Ghost(next_bound(s0, s1, r1)),
                Ghost(next_bound(s0, s1, r2)),
            );
            proof {
                lemma_keeps_trans(s0, s1, store@);
                let s = store@;
                if s0.unique_unbound_ids() && rr is Ok {
                    crate::resolution::lemma_list_below_any(*a1, s0.len(), s0.rank, r1, s1.rank, s1.bound);
                    crate::resolution::lemma_list_below_any(*a2, s0.len(), s0.rank, r2, s1.rank, s1.bound);
                    crate::resolution::lemma_list_below_any(*a1, s0.len(), s0.rank, r1, s.rank, s.bound);
                    crate::resolution::lemma_list_below_any(*a2, s0.len(), s0.rank, r2, s.rank, s.bound);
                    lemma_req_extend_list(s1, s, *a1, *a2, s1.bound, s1.bound, s.bound, s.bound);
                }
            }
            match rr {
                Ok(()) => Ok(()),
                Err(_) => Err(unify_wrong_returns(&t1, q1, &t2, q2)),
            }
        },
        _ => Ok(()),
    }
}

/// Unify two lists of types pairwise, from position `idx` on.
fn unify_list(
    store: &mut TypeVarStore,
    mode: ListMode,
    t1: &Type,
    t2: &Type,
    l1: &TypeList,
    l2: &TypeList,
    idx: usize,
    Ghost(r1): Ghost<nat>,
    Ghost(r2): Ghost<nat>,
) -> (res: Result<(), UnifyError>)
    requires
        old(store)@.wf(),
        list_below(*l1, old(store)@.len(), old(store)@.rank, r1),
        list_below(*l2, old(store)@.len(), old(store)@.rank, r2),
        list_len(*l1) == list_len(*l2),
    ensures
        unify_list_model(old(store)@, mode, *t1, *t2, *l1, *l2, idx, r1, r2) == (res, final(store)@),
        unify_keeps(old(store)@, final(store)@),
        old(store)@.unique_unbound_ids() && res is Ok ==> req_list(
            final(store)@,
            *l1,
            *l2,
            final(store)@.bound,
            final(store)@.bound,
        ),
    decreases unbound_count(old(store)@.cells), r1 + r2, 1nat, l1, 0nat,
{
    let ghost s0 = store@;
    match l1 {
        TypeList::Nil => {
            proof {
                if s0.unique_unbound_ids() {
                    assert(*l2 is Nil);
                }
            }
            Ok(())
        },
        TypeList::Cons { head: h1, tail: k1 } => match l2 {
            TypeList::Nil => Ok(()),
            TypeList::Cons { head: h2, tail: k2 } => {
                let r = unify_inner(store, copy_type(h1), copy_type(h2), Ghost(r1), Ghost(r2));
                match r {
                    Err(e) => {
                        let err = match mode {
                            ListMode::Enclosed => unify_enclosed_type(copy_type(t1), copy_type(t2), Err(e)),
                            ListMode::Arguments => Err(unify_wrong_arguments(t1, h1, t2, h2, idx)),
                        };
                        err
                    },
                    Ok(()) => {
                        let ghost s1 = store@;
                        proof {
                            lemma_list_below_any_alias(**k1, s0, r1, s1);
                            lemma_list_below_any_alias(**k2, s0, r2, s1);
                        }
                        let rest = unify_list(
                            store,
                            mode,
                            t1,
                            t2,
                            k1,
                            k2,
                            idx.wrapping_add(1),
                            Ghost(next_bound(s0, s1, r1)),
                            Ghost(next_bound(s0, s1, r2)),
                        );
                        proof {
                            lemma_keeps_trans(s0, s1, store@);
                            let s = store@;
                            if s0.unique_unbound_ids() && rest is Ok {
                                lemma_below_any(**h1, s0.len(), s0.rank, r1, s1.rank, s1.bound);
                                lemma_below_any(**h2, s0.len(), s0.rank, r2, s1.rank, s1.bound);
                                lemma_below_any(**h1, s0.len(), s0.rank, r1, s.rank, s.bound);
                                lemma_below_any(**h2, s0.len(), s0.rank, r2, s.rank, s.bound);
                                lemma_req_extend(s1, s, **h1, **h2, s1.bound, s1.bound, s.bound, s.bound);
                            }
                        }
                        rest
                    },
                }
            },
        },
    }
}

proof fn lemma_list_below_any_alias(l: TypeList, s0: StoreView, r: nat, s1: StoreView)
    requires
        list_below(l, s0.len(), s0.rank, r),
        unify_keeps(s0, s1),
    ensures
        list_below(l, s1.len(), s1.rank, next_bound(s0, s1, r)),
{
    if s1 != s0 {
        crate::resolution::lemma_list_below_any(l, s0.len(), s0.rank, r, s1.rank, s1.bound);
    }
}


/// Unify two types that should be the same. Any unbound type variable is
/// linked to the other type, as they are the same. If the two types are
/// found not to be the same, an error is returned; links made before the
/// failure stay.
///
/// The type variables live in `store`, where a variable is linked by
/// writing its cell.
pub fn unify(store: &mut TypeVarStore, t1: Type, t2: Type) -> (res: Result<(), UnifyError>)
    requires
        old(store)@.wf(),
        old(store)@.holds(t1),
        old(store)@.holds(t2),
    ensures
        (res, final(store)@) == unify_model(old(store)@, t1, t2, old(store)@.bound, old(store)@.bound),
        unify_keeps(old(store)@, final(store)@),
        old(store)@.unique_unbound_ids() && res is Ok ==> same_type(final(store)@, t1, t2),
        old(store)@.unique_unbound_ids() && same_type(old(store)@, t1, t2) ==> res is Ok
            && final(store)@ == old(store)@,
{
    proof {
        if old(store)@.unique_unbound_ids() && same_type(old(store)@, t1, t2) {
            lemma_unify_same(old(store)@, t1, t2, old(store)@.bound, old(store)@.bound);
        }
    }
    unify_inner(store, t1, t2, Ghost(old(store)@.bound), Ghost(old(store)@.bound))
}

/// An unbound variable unifies with any other type that does not mention
/// it: the call succeeds, links the variable's cell to that type and leaves
/// every other cell as it was. This holds whichever side the variable is
/// on.
pub proof fn lemma_unify_binds_unbound(s: StoreView, v: usize, t: Type, rv: nat, rt: nat)
    requires
        s.wf(),
        v < s.len(),
        s.cells[v as int] is Unbound,
        s.rank[v as int] < rv,
        type_below(t, s.len(), s.rank, rt),
        !(t is Var),
        !has_unbound(s, t, s.cells[v as int]->Unbound_id, rt),
    ensures
        unify_model(s, Type::Var { type_: v }, t, rv, rt).0 is Ok,
        unify_model(s, Type::Var { type_: v }, t, rv, rt).1.cells == s.cells.update(
            v as int,
            TypeVar::Link { type_: t },
        ),
        unify_model(s, t, Type::Var { type_: v }, rt, rv).0 is Ok,
        unify_model(s, t, Type::Var { type_: v }, rt, rv).1.cells == s.cells.update(
            v as int,
            TypeVar::Link { type_: t },
        ),
{
    let tv = Type::Var { type_: v };
    assert(type_below(tv, s.len(), s.rank, rv));
    assert(!teq(s, tv, t, rv, rt));
    assert(!teq(s, t, tv, rt, rv));
    assert(!link_of(s, t, rt));
    assert(!link_of(s, tv, rv));
    assert(unify_model(s, t, tv, rt, rv) == ({
        let (r, s2) = unify_model(s, tv, t, rv, rt);
        (
            match r {
                Ok(()) => Ok(()),
                Err(e) => Err(spec_flip_unify_error(e)),
            },
            s2,
        )
    }));
}

/// Two unbound variables with different ids unify: the first is linked to
/// the second, and every other cell is left as it was.
pub proof fn lemma_unify_binds_unbound_pair(s: StoreView, v: usize, w: usize, rv: nat, rw: nat)
    requires
        s.wf(),
        v < s.len(),
        w < s.len(),
        s.cells[v as int] is Unbound,
        s.cells[w as int] is Unbound,
        s.cells[v as int]->Unbound_id != s.cells[w as int]->Unbound_id,
        s.rank[v as int] < rv,
        s.rank[w as int] < rw,
    ensures
        unify_model(s, Type::Var { type_: v }, Type::Var { type_: w }, rv, rw).0 is Ok,
        unify_model(s, Type::Var { type_: v }, Type::Var { type_: w }, rv, rw).1.cells == s.cells.update(
            v as int,
            TypeVar::Link { type_: Type::Var { type_: w } },
        ),
{
    let tv = Type::Var { type_: v };
    let tw = Type::Var { type_: w };
    assert(type_below(tv, s.len(), s.rank, rv));
    assert(type_below(tw, s.len(), s.rank, rw));
    assert(!teq(s, tv, tw, rv, rw));
    assert(!link_of(s, tw, rw));
    assert(!has_unbound(s, tw, s.cells[v as int]->Unbound_id, rw));
}

/// Unifying two types that are already the same succeeds and changes
/// nothing.
pub proof fn lemma_unify_same(s: StoreView, t1: Type, t2: Type, r1: nat, r2: nat)
    requires
        s.wf(),
        s.unique_unbound_ids(),
        type_below(t1, s.len(), s.rank, r1),
        type_below(t2, s.len(), s.rank, r2),
        req(s, t1, t2, r1, r2),
    ensures
        unify_model(s, t1, t2, r1, r2) == (Ok::<(), UnifyError>(()), s),
    decreases unbound_count(s.cells), r1 + r2, tag(t1), t1,
{
    if teq(s, t1, t2, r1, r2) {
    } else if link_of(s, t2, r2) {
        lemma_req_unlink_right(s, t1, t2, r1, r2);
        lemma_unify_same(s, t1, link_target(s, t2), r1, rank_of(s, t2));
    } else if t1 is Var {
        let v1 = t1->type_ as int;
        match s.cells[v1] {
            TypeVar::Link { type_: u1 } => {
                lemma_unify_same(s, u1, t2, s.rank[v1], r2);
            },
            TypeVar::Unbound { id } => {
                let v2 = t2->type_ as int;
                assert(v1 == v2);
            },
            TypeVar::Generic { id } => {},
        }
    } else if t2 is Var {
    } else {
        match t1 {
            Type::Named { args: a1, .. } => match t2 {
                Type::Named { args: a2, .. } => {
                    lemma_req_list_len(s, a1, a2, r1, r2);
                    lemma_unify_list_same(s, ListMode::Enclosed, t1, t2, a1, a2, 0, r1, r2);
                },
                _ => {},
            },
            Type::Tuple { elems: e1 } => match t2 {
                Type::Tuple { elems: e2 } => {
                    lemma_req_list_len(s, e1, e2, r1, r2);
                    lemma_unify_list_same(s, ListMode::Enclosed, t1, t2, e1, e2, 0, r1, r2);
                },
                _ => {},
            },
            Type::Fn { args: a1, retrn: q1 } => match t2 {
                Type::Fn { args: a2, retrn: q2 } => {
                    lemma_req_list_len(s, a1, a2, r1, r2);
                    lemma_unify_list_same(s, ListMode::Arguments, t1, t2, a1, a2, 0, r1, r2);
                    lemma_unify_same(s, *q1, *q2, r1, r2);
                },
                _ => {},
            },
            Type::Var { .. } => {},
        }
    }
}

proof fn lemma_unify_list_same(
    s: StoreView,
    mode: ListMode,
    t1: Type,
    t2: Type,
    l1: TypeList,
    l2: TypeList,
    idx: usize,
    r1: nat,
    r2: nat,
)
    requires
        s.wf(),
        s.unique_unbound_ids(),
        list_below(l1, s.len(), s.rank, r1),
        list_below(l2, s.len(), s.rank, r2),
        req_list(s, l1, l2, r1, r2),
    ensures
        unify_list_model(s, mode, t1, t2, l1, l2, idx, r1, r2) == (Ok::<(), UnifyError>(()), s),
    decreases unbound_count(s.cells), r1 + r2, 1nat, l1,
{
    match l1 {
        TypeList::Nil => {},
        TypeList::Cons { head: h1, tail: k1 } => match l2 {
            TypeList::Nil => {},
            TypeList::Cons { head: h2, tail: k2 } => {
                lemma_unify_same(s, *h1, *h2, r1, r2);
                lemma_unify_list_same(s, mode, t1, t2, *k1, *k2, idx.wrapping_add(1), r1, r2);
            },
        },
    }
}

proof fn lemma_req_list_len(s: StoreView, l1: TypeList, l2: TypeList, b1: nat, b2: nat)
    requires
        req_list(s, l1, l2, b1, b2),
    ensures
        list_len(l1) == list_len(l2),
    decreases l1,
{
    match l1 {
        TypeList::Nil => {},
        TypeList::Cons { tail: k1, .. } => match l2 {
            TypeList::Cons { tail: k2, .. } => lemma_req_list_len(s, *k1, *k2, b1, b2),
            TypeList::Nil => {},
        },
    }
}

} // verus!
