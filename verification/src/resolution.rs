//! Relations between types read through the links of a store of type
//! variables, and their laws.

use vstd::prelude::*;
use crate::types::{list_below, type_below, StoreView, Type, TypeList, TypeVar};

verus! {

/// `t` is a variable whose cell is a link, of rank below `b`.
pub open spec fn link_of(s: StoreView, t: Type, b: nat) -> bool {
    &&& t is Var
    &&& t->type_ < s.len()
    &&& s.cells[t->type_ as int] is Link
    &&& s.rank[t->type_ as int] < b
}

/// The type that the link variable `t` points to.
pub open spec fn link_target(s: StoreView, t: Type) -> Type {
    s.cells[t->type_ as int]->type_
}

/// The rank of the cell of the variable `t`.
pub open spec fn rank_of(s: StoreView, t: Type) -> nat {
    s.rank[t->type_ as int]
}

/// `t`, read through links, mentions an unbound cell with this id.
pub open spec fn has_unbound(s: StoreView, t: Type, id: u64, b: nat) -> bool
    decreases b, t,
{
    match t {
        Type::Named { args, .. } => has_unbound_list(s, args, id, b),
        Type::Fn { args, retrn } => has_unbound_list(s, args, id, b) || has_unbound(
            s,
            *retrn,
            id,
            b,
        ),
        Type::Var { type_ } => type_ < s.len() && (s.cells[type_ as int] == (TypeVar::Unbound { id })
            || (s.cells[type_ as int] is Link && s.rank[type_ as int] < b && has_unbound(
            s,
            s.cells[type_ as int]->type_,
            id,
            s.rank[type_ as int],
        ))),
        Type::Tuple { elems } => has_unbound_list(s, elems, id, b),
    }
}

pub open spec fn has_unbound_list(s: StoreView, l: TypeList, id: u64, b: nat) -> bool
    decreases b, l,
{
    match l {
        TypeList::Nil => false,
        TypeList::Cons { head, tail } => has_unbound(s, *head, id, b) || has_unbound_list(
            s,
            *tail,
            id,
            b,
        ),
    }
}

/// `t`, read through links, mentions the cell `target`.
pub open spec fn reaches(s: StoreView, t: Type, target: int, b: nat) -> bool
    decreases b, t,
{
    match t {
        Type::Named { args, .. } => reaches_list(s, args, target, b),
        Type::Fn { args, retrn } => reaches_list(s, args, target, b) || reaches(
            s,
            *retrn,
            target,
            b,
        ),
        Type::Var { type_ } => type_ == target || (type_ < s.len() && s.cells[type_ as int] is Link
            && s.rank[type_ as int] < b && reaches(
            s,
            s.cells[type_ as int]->type_,
            target,
            s.rank[type_ as int],
        )),
        Type::Tuple { elems } => reaches_list(s, elems, target, b),
    }
}

pub open spec fn reaches_list(s: StoreView, l: TypeList, target: int, b: nat) -> bool
    decreases b, l,
{
    match l {
        TypeList::Nil => false,
        TypeList::Cons { head, tail } => reaches(s, *head, target, b) || reaches_list(
            s,
            *tail,
            target,
            b,
        ),
    }
}

/// The cell `j` is `target`, or links, directly or not, to a type that
/// mentions `target`.
pub open spec fn cell_reaches(s: StoreView, j: int, target: int) -> bool {
    reaches(s, Type::Var { type_: j as usize }, target, s.rank[j] + 1)
}

/// Equality of types as the derived `==` of the types computes it: a
/// variable equals a variable whose cell holds equal contents.
pub open spec fn teq(s: StoreView, t1: Type, t2: Type, b1: nat, b2: nat) -> bool
    decreases b1 + b2, t1,
{
    match t1 {
        Type::Named { publicity: p1, package: k1, module: m1, name: n1, args: a1 } => match t2 {
            Type::Named { publicity: p2, package: k2, module: m2, name: n2, args: a2 } => p1 == p2
                && k1@ == k2@ && m1@ == m2@ && n1@ == n2@ && teq_list(s, a1, a2, b1, b2),
            _ => false,
        },
        Type::Fn { args: a1, retrn: r1 } => match t2 {
            Type::Fn { args: a2, retrn: r2 } => teq_list(s, a1, a2, b1, b2) && teq(
                s,
                *r1,
                *r2,
                b1,
                b2,
            ),
            _ => false,
        },
        Type::Var { type_: v1 } => match t2 {
            Type::Var { type_: v2 } => v1 < s.len() && v2 < s.len() && match s.cells[v1 as int] {
                TypeVar::Unbound { id: x } => s.cells[v2 as int] == (TypeVar::Unbound { id: x }),
                TypeVar::Generic { id: x } => s.cells[v2 as int] == (TypeVar::Generic { id: x }),
                TypeVar::Link { type_: u1 } => s.cells[v2 as int] is Link && s.rank[v1 as int] < b1
                    && s.rank[v2 as int] < b2 && teq(
                    s,
                    u1,
                    s.cells[v2 as int]->type_,
                    s.rank[v1 as int],
                    s.rank[v2 as int],
                ),
            },
            _ => false,
        },
        Type::Tuple { elems: e1 } => match t2 {
            Type::Tuple { elems: e2 } => teq_list(s, e1, e2, b1, b2),
            _ => false,
        },
    }
}

pub open spec fn teq_list(s: StoreView, l1: TypeList, l2: TypeList, b1: nat, b2: nat) -> bool
    decreases b1 + b2, l1,
{
    match l1 {
        TypeList::Nil => l2 is Nil,
        TypeList::Cons { head: h1, tail: r1 } => match l2 {
            TypeList::Cons { head: h2, tail: r2 } => teq(s, *h1, *h2, b1, b2) && teq_list(
                s,
                *r1,
                *r2,
                b1,
                b2,
            ),
            TypeList::Nil => false,
        },
    }
}

/// Two types are the same type once every link is followed: same named
/// type (module and name) with the same arguments, same function type, same
/// tuple, or variables whose cells hold the same id.
pub open spec fn req(s: StoreView, t1: Type, t2: Type, b1: nat, b2: nat) -> bool
    decreases b1 + b2, t1,
{
    if link_of(s, t1, b1) && link_of(s, t2, b2) {
        req(s, link_target(s, t1), link_target(s, t2), rank_of(s, t1), rank_of(s, t2))
    } else if link_of(s, t1, b1) {
        req(s, link_target(s, t1), t2, rank_of(s, t1), b2)
    } else if link_of(s, t2, b2) {
        req(s, t1, link_target(s, t2), b1, rank_of(s, t2))
    } else {
        match t1 {
            Type::Named { module: m1, name: n1, args: a1, .. } => match t2 {
                Type::Named { module: m2, name: n2, args: a2, .. } => m1@ == m2@ && n1@ == n2@
                    && req_list(s, a1, a2, b1, b2),
                _ => false,
            },
            Type::Fn { args: a1, retrn: r1 } => match t2 {
                Type::Fn { args: a2, retrn: r2 } => req_list(s, a1, a2, b1, b2) && req(
                    s,
                    *r1,
                    *r2,
                    b1,
                    b2,
                ),
                _ => false,
            },
            Type::Var { type_: v1 } => match t2 {
                Type::Var { type_: v2 } => v1 < s.len() && v2 < s.len() && match s.cells[v1 as int] {
                    TypeVar::Unbound { id: x } => s.cells[v2 as int] == (TypeVar::Unbound { id: x }),
                    TypeVar::Generic { id: x } => s.cells[v2 as int] == (TypeVar::Generic { id: x }),
                    TypeVar::Link { .. } => false,
                },
                _ => false,
            },
            Type::Tuple { elems: e1 } => match t2 {
                Type::Tuple { elems: e2 } => req_list(s, e1, e2, b1, b2),
                _ => false,
            },
        }
    }
}

pub open spec fn req_list(s: StoreView, l1: TypeList, l2: TypeList, b1: nat, b2: nat) -> bool
    decreases b1 + b2, l1,
{
    match l1 {
        TypeList::Nil => l2 is Nil,
        TypeList::Cons { head: h1, tail: r1 } => match l2 {
            TypeList::Cons { head: h2, tail: r2 } => req(s, *h1, *h2, b1, b2) && req_list(
                s,
                *r1,
                *r2,
                b1,
                b2,
            ),
            TypeList::Nil => false,
        },
    }
}

/// The two types are the same once every link is read, in this store.
pub open spec fn same_type(s: StoreView, t1: Type, t2: Type) -> bool {
    req(s, t1, t2, s.bound, s.bound)
}


/// The number of unbound cells.
pub open spec fn unbound_count(cells: Seq<TypeVar>) -> nat
    decreases cells.len(),
{
    if cells.len() == 0 {
        0
    } else {
        unbound_count(cells.drop_last()) + if cells.last() is Unbound {
            1nat
        } else {
            0nat
        }
    }
}

/// The store after the unbound cell `v` is linked to `t`: the cells that
/// reach `v` rise above every old rank, so that ranks still fall along links.
pub open spec fn linked_store(s: StoreView, v: int, t: Type) -> StoreView {
    StoreView {
        cells: s.cells.update(v, TypeVar::Link { type_: t }),
        rank: Seq::new(
            s.len(),
            |j: int|
                if cell_reaches(s, j, v) {
                    s.rank[j] + s.bound
                } else {
                    s.rank[j]
                },
        ),
        bound: 2 * s.bound,
    }
}

/// The store after the cell `v` is made to hold `var`.
pub open spec fn set_store(s: StoreView, v: int, var: TypeVar) -> StoreView {
    StoreView { cells: s.cells.update(v, var), rank: s.rank, bound: s.bound }
}

// ---------------------------------------------------------------------------
// Bounds

pub proof fn lemma_below_any(t: Type, n: nat, rank: Seq<nat>, b: nat, rank2: Seq<nat>, b2: nat)
    requires
        type_below(t, n, rank, b),
        rank2.len() >= n,
        forall|j: int| 0 <= j < n ==> #[trigger] rank2[j] < b2,
    ensures
        type_below(t, n, rank2, b2),
    decreases t,
{
    match t {
        Type::Named { args, .. } => lemma_list_below_any(args, n, rank, b, rank2, b2),
        Type::Fn { args, retrn } => {
            lemma_list_below_any(args, n, rank, b, rank2, b2);
            lemma_below_any(*retrn, n, rank, b, rank2, b2);
        },
        Type::Var { type_ } => {
            assert(rank2[type_ as int] < b2);
        },
        Type::Tuple { elems } => lemma_list_below_any(elems, n, rank, b, rank2, b2),
    }
}

pub proof fn lemma_list_below_any(
    l: TypeList,
    n: nat,
    rank: Seq<nat>,
    b: nat,
    rank2: Seq<nat>,
    b2: nat,
)
    requires
        list_below(l, n, rank, b),
        rank2.len() >= n,
        forall|j: int| 0 <= j < n ==> #[trigger] rank2[j] < b2,
    ensures
        list_below(l, n, rank2, b2),
    decreases l,
{
    match l {
        TypeList::Nil => {},
        TypeList::Cons { head, tail } => {
            lemma_below_any(*head, n, rank, b, rank2, b2);
            lemma_list_below_any(*tail, n, rank, b, rank2, b2);
        },
    }
}

pub proof fn lemma_below_mono(t: Type, n: nat, rank: Seq<nat>, b: nat, b2: nat)
    requires
        type_below(t, n, rank, b),
        b <= b2,
    ensures
        type_below(t, n, rank, b2),
    decreases t,
{
    match t {
        Type::Named { args, .. } => lemma_list_below_mono(args, n, rank, b, b2),
        Type::Fn { args, retrn } => {
            lemma_list_below_mono(args, n, rank, b, b2);
            lemma_below_mono(*retrn, n, rank, b, b2);
        },
        Type::Var { .. } => {},
        Type::Tuple { elems } => lemma_list_below_mono(elems, n, rank, b, b2),
    }
}

pub proof fn lemma_list_below_mono(l: TypeList, n: nat, rank: Seq<nat>, b: nat, b2: nat)
    requires
        list_below(l, n, rank, b),
        b <= b2,
    ensures
        list_below(l, n, rank, b2),
    decreases l,
{
    match l {
        TypeList::Nil => {},
        TypeList::Cons { head, tail } => {
            lemma_below_mono(*head, n, rank, b, b2);
            lemma_list_below_mono(*tail, n, rank, b, b2);
        },
    }
}

/// Within a well-formed store, every type that it holds is below its bound.
pub proof fn lemma_holds(s: StoreView, t: Type, b: nat)
    requires
        s.wf(),
        type_below(t, s.len(), s.rank, b),
    ensures
        s.holds(t),
{
    lemma_below_any(t, s.len(), s.rank, b, s.rank, s.bound);
}

// ---------------------------------------------------------------------------
// Counting unbound cells

pub proof fn lemma_unbound_count_update(cells: Seq<TypeVar>, i: int, x: TypeVar)
    requires
        0 <= i < cells.len(),
        cells[i] is Unbound,
        !(x is Unbound),
    ensures
        unbound_count(cells.update(i, x)) + 1 == unbound_count(cells),
    decreases cells.len(),
{
    let new = cells.update(i, x);
    if i == cells.len() - 1 {
        assert(new.drop_last() =~= cells.drop_last());
    } else {
        lemma_unbound_count_update(cells.drop_last(), i, x);
        assert(new.drop_last() =~= cells.drop_last().update(i, x));
    }
}

// ---------------------------------------------------------------------------
// The occurs check and reachability

/// A type that reaches an unbound cell mentions that cell's id.
pub proof fn lemma_reaches_has_unbound(s: StoreView, t: Type, v: int, id: u64, b: nat)
    requires
        s.wf(),
        0 <= v < s.len(),
        s.cells[v] == (TypeVar::Unbound { id }),
        type_below(t, s.len(), s.rank, b),
        reaches(s, t, v, b),
    ensures
        has_unbound(s, t, id, b),
    decreases b, t,
{
    match t {
        Type::Named { args, .. } => lemma_reaches_has_unbound_list(s, args, v, id, b),
        Type::Fn { args, retrn } => {
            if reaches_list(s, args, v, b) {
                lemma_reaches_has_unbound_list(s, args, v, id, b);
            } else {
                lemma_reaches_has_unbound(s, *retrn, v, id, b);
            }
        },
        Type::Var { type_ } => {
            if type_ as int != v {
                let j = type_ as int;
                assert(s.cells[j] is Link);
                lemma_reaches_has_unbound(s, s.cells[j]->type_, v, id, s.rank[j]);
            }
        },
        Type::Tuple { elems } => lemma_reaches_has_unbound_list(s, elems, v, id, b),
    }
}

pub proof fn lemma_reaches_has_unbound_list(s: StoreView, l: TypeList, v: int, id: u64, b: nat)
    requires
        s.wf(),
        0 <= v < s.len(),
        s.cells[v] == (TypeVar::Unbound { id }),
        list_below(l, s.len(), s.rank, b),
        reaches_list(s, l, v, b),
    ensures
        has_unbound_list(s, l, id, b),
    decreases b, l,
{
    match l {
        TypeList::Nil => {},
        TypeList::Cons { head, tail } => {
            if reaches(s, *head, v, b) {
                lemma_reaches_has_unbound(s, *head, v, id, b);
            } else {
                lemma_reaches_has_unbound_list(s, *tail, v, id, b);
            }
        },
    }
}


// ---------------------------------------------------------------------------
// Linking an unbound cell keeps the store well formed

proof fn lemma_link_rank_unreached(s: StoreView, v: int, t: Type, u: Type, c: nat)
    requires
        s.wf(),
        0 <= v < s.len(),
        type_below(u, s.len(), s.rank, c),
        !reaches(s, u, v, c),
    ensures
        type_below(u, s.len(), linked_store(s, v, t).rank, c),
        type_below(u, s.len(), linked_store(s, v, t).rank, s.bound),
    decreases u,
{
    match u {
        Type::Named { args, .. } => lemma_link_rank_unreached_list(s, v, t, args, c),
        Type::Fn { args, retrn } => {
            lemma_link_rank_unreached_list(s, v, t, args, c);
            lemma_link_rank_unreached(s, v, t, *retrn, c);
        },
        Type::Var { type_ } => {
            let k = type_ as int;
            assert(!cell_reaches(s, k, v));
            assert(s.rank[k] < s.bound);
        },
        Type::Tuple { elems } => lemma_link_rank_unreached_list(s, v, t, elems, c),
    }
}

proof fn lemma_link_rank_unreached_list(s: StoreView, v: int, t: Type, l: TypeList, c: nat)
    requires
        s.wf(),
        0 <= v < s.len(),
        list_below(l, s.len(), s.rank, c),
        !reaches_list(s, l, v, c),
    ensures
        list_below(l, s.len(), linked_store(s, v, t).rank, c),
        list_below(l, s.len(), linked_store(s, v, t).rank, s.bound),
    decreases l,
{
    match l {
        TypeList::Nil => {},
        TypeList::Cons { head, tail } => {
            lemma_link_rank_unreached(s, v, t, *head, c);
            lemma_link_rank_unreached_list(s, v, t, *tail, c);
        },
    }
}

proof fn lemma_link_rank_raised(s: StoreView, v: int, t: Type, u: Type, c: nat)
    requires
        s.wf(),
        0 <= v < s.len(),
        type_below(u, s.len(), s.rank, c),
    ensures
        type_below(u, s.len(), linked_store(s, v, t).rank, c + s.bound),
    decreases u,
{
    match u {
        Type::Named { args, .. } => lemma_link_rank_raised_list(s, v, t, args, c),
        Type::Fn { args, retrn } => {
            lemma_link_rank_raised_list(s, v, t, args, c);
            lemma_link_rank_raised(s, v, t, *retrn, c);
        },
        Type::Var { type_ } => {},
        Type::Tuple { elems } => lemma_link_rank_raised_list(s, v, t, elems, c),
    }
}

proof fn lemma_link_rank_raised_list(s: StoreView, v: int, t: Type, l: TypeList, c: nat)
    requires
        s.wf(),
        0 <= v < s.len(),
        list_below(l, s.len(), s.rank, c),
    ensures
        list_below(l, s.len(), linked_store(s, v, t).rank, c + s.bound),
    decreases l,
{
    match l {
        TypeList::Nil => {},
        TypeList::Cons { head, tail } => {
            lemma_link_rank_raised(s, v, t, *head, c);
            lemma_link_rank_raised_list(s, v, t, *tail, c);
        },
    }
}

/// Linking an unbound cell to a type that does not reach it keeps the store
/// well formed, binds one unbound cell, and keeps unbound ids unique.
pub proof fn lemma_link_wf(s: StoreView, v: int, t: Type, b: nat)
    requires
        s.wf(),
        0 <= v < s.len(),
        s.cells[v] is Unbound,
        type_below(t, s.len(), s.rank, b),
        !reaches(s, t, v, b),
    ensures
        linked_store(s, v, t).wf(),
        linked_store(s, v, t).len() == s.len(),
        s.extended_by(linked_store(s, v, t)),
        unbound_count(linked_store(s, v, t).cells) < unbound_count(s.cells),
        s.unique_unbound_ids() ==> linked_store(s, v, t).unique_unbound_ids(),
{
    let n = linked_store(s, v, t);
    lemma_link_rank_unreached(s, v, t, t, b);
    assert(cell_reaches(s, v, v));
    assert forall|j: int| 0 <= j < n.cells.len() implies #[trigger] n.rank[j] < n.bound by {
        assert(s.rank[j] < s.bound);
    }
    assert forall|j: int| 0 <= j < n.cells.len() && (#[trigger] n.cells[j]) is Link implies type_below(
        n.cells[j]->type_,
        n.cells.len(),
        n.rank,
        n.rank[j],
    ) by {
        if j == v {
            lemma_below_mono(t, s.len(), n.rank, s.bound, n.rank[j]);
        } else {
            let u = s.cells[j]->type_;
            assert(type_below(u, s.len(), s.rank, s.rank[j]));
            if cell_reaches(s, j, v) {
                assert(reaches(s, u, v, s.rank[j]));
                lemma_link_rank_raised(s, v, t, u, s.rank[j]);
            } else {
                lemma_link_rank_unreached(s, v, t, u, s.rank[j]);
            }
        }
    }
    lemma_unbound_count_update(s.cells, v, TypeVar::Link { type_: t });
}

/// Making an unbound cell generic keeps the store well formed.
pub proof fn lemma_set_generic_wf(s: StoreView, v: int, id: u64)
    requires
        s.wf(),
        0 <= v < s.len(),
        s.cells[v] is Unbound,
    ensures
        set_store(s, v, TypeVar::Generic { id }).wf(),
        set_store(s, v, TypeVar::Generic { id }).len() == s.len(),
        s.extended_by(set_store(s, v, TypeVar::Generic { id })),
        unbound_count(set_store(s, v, TypeVar::Generic { id }).cells) < unbound_count(s.cells),
        s.unique_unbound_ids() ==> set_store(s, v, TypeVar::Generic { id }).unique_unbound_ids(),
{
    lemma_unbound_count_update(s.cells, v, TypeVar::Generic { id });
}


// ---------------------------------------------------------------------------
// Laws of `same_type`

/// Every type held by a well-formed store is the same type as itself.
pub proof fn lemma_req_refl(s: StoreView, t: Type, b1: nat, b2: nat)
    requires
        s.wf(),
        type_below(t, s.len(), s.rank, b1),
        type_below(t, s.len(), s.rank, b2),
    ensures
        req(s, t, t, b1, b2),
    decreases b1 + b2, t,
{
    if link_of(s, t, b1) {
        let k = t->type_ as int;
        lemma_req_refl(s, s.cells[k]->type_, s.rank[k], s.rank[k]);
    } else {
        match t {
            Type::Named { args, .. } => lemma_req_refl_list(s, args, b1, b2),
            Type::Fn { args, retrn } => {
                lemma_req_refl_list(s, args, b1, b2);
                lemma_req_refl(s, *retrn, b1, b2);
            },
            Type::Var { .. } => {},
            Type::Tuple { elems } => lemma_req_refl_list(s, elems, b1, b2),
        }
    }
}

pub proof fn lemma_req_refl_list(s: StoreView, l: TypeList, b1: nat, b2: nat)
    requires
        s.wf(),
        list_below(l, s.len(), s.rank, b1),
        list_below(l, s.len(), s.rank, b2),
    ensures
        req_list(s, l, l, b1, b2),
    decreases b1 + b2, l,
{
    match l {
        TypeList::Nil => {},
        TypeList::Cons { head, tail } => {
            lemma_req_refl(s, *head, b1, b2);
            lemma_req_refl_list(s, *tail, b1, b2);
        },
    }
}

/// Being the same type is symmetric.
pub proof fn lemma_req_sym(s: StoreView, t1: Type, t2: Type, b1: nat, b2: nat)
    requires
        req(s, t1, t2, b1, b2),
    ensures
        req(s, t2, t1, b2, b1),
    decreases b1 + b2, t1,
{
    if link_of(s, t1, b1) && link_of(s, t2, b2) {
        lemma_req_sym(s, link_target(s, t1), link_target(s, t2), rank_of(s, t1), rank_of(s, t2));
    } else if link_of(s, t1, b1) {
        lemma_req_sym(s, link_target(s, t1), t2, rank_of(s, t1), b2);
    } else if link_of(s, t2, b2) {
        lemma_req_sym(s, t1, link_target(s, t2), b1, rank_of(s, t2));
    } else {
        match t1 {
            Type::Named { args: a1, .. } => match t2 {
                Type::Named { args: a2, .. } => lemma_req_sym_list(s, a1, a2, b1, b2),
                _ => {},
            },
            Type::Fn { args: a1, retrn: r1 } => match t2 {
                Type::Fn { args: a2, retrn: r2 } => {
                    lemma_req_sym_list(s, a1, a2, b1, b2);
                    lemma_req_sym(s, *r1, *r2, b1, b2);
                },
                _ => {},
            },
            Type::Var { .. } => {},
            Type::Tuple { elems: e1 } => match t2 {
                Type::Tuple { elems: e2 } => lemma_req_sym_list(s, e1, e2, b1, b2),
                _ => {},
            },
        }
    }
}

pub proof fn lemma_req_sym_list(s: StoreView, l1: TypeList, l2: TypeList, b1: nat, b2: nat)
    requires
        req_list(s, l1, l2, b1, b2),
    ensures
        req_list(s, l2, l1, b2, b1),
    decreases b1 + b2, l1,
{
    match l1 {
        TypeList::Nil => {},
        TypeList::Cons { head: h1, tail: r1 } => match l2 {
            TypeList::Cons { head: h2, tail: r2 } => {
                lemma_req_sym(s, *h1, *h2, b1, b2);
                lemma_req_sym_list(s, *r1, *r2, b1, b2);
            },
            TypeList::Nil => {},
        },
    }
}

/// Types equal under the derived `==` are the same type.
pub proof fn lemma_teq_req(s: StoreView, t1: Type, t2: Type, b1: nat, b2: nat)
    requires
        teq(s, t1, t2, b1, b2),
    ensures
        req(s, t1, t2, b1, b2),
    decreases b1 + b2, t1,
{
    match t1 {
        Type::Named { args: a1, .. } => match t2 {
            Type::Named { args: a2, .. } => lemma_teq_req_list(s, a1, a2, b1, b2),
            _ => {},
        },
        Type::Fn { args: a1, retrn: r1 } => match t2 {
            Type::Fn { args: a2, retrn: r2 } => {
                lemma_teq_req_list(s, a1, a2, b1, b2);
                lemma_teq_req(s, *r1, *r2, b1, b2);
            },
            _ => {},
        },
        Type::Var { type_: v1 } => match t2 {
            Type::Var { type_: v2 } => {
                if s.cells[v1 as int] is Link {
                    lemma_teq_req(
                        s,
                        s.cells[v1 as int]->type_,
                        s.cells[v2 as int]->type_,
                        s.rank[v1 as int],
                        s.rank[v2 as int],
                    );
                }
            },
            _ => {},
        },
        Type::Tuple { elems: e1 } => match t2 {
            Type::Tuple { elems: e2 } => lemma_teq_req_list(s, e1, e2, b1, b2),
            _ => {},
        },
    }
}

pub proof fn lemma_teq_req_list(s: StoreView, l1: TypeList, l2: TypeList, b1: nat, b2: nat)
    requires
        teq_list(s, l1, l2, b1, b2),
    ensures
        req_list(s, l1, l2, b1, b2),
    decreases b1 + b2, l1,
{
    match l1 {
        TypeList::Nil => {},
        TypeList::Cons { head: h1, tail: r1 } => match l2 {
            TypeList::Cons { head: h2, tail: r2 } => {
                lemma_teq_req(s, *h1, *h2, b1, b2);
                lemma_teq_req_list(s, *r1, *r2, b1, b2);
            },
            TypeList::Nil => {},
        },
    }
}

/// A type is the same as a link variable when it is the same as the type
/// that the variable links to.
pub proof fn lemma_req_link_right(s: StoreView, t1: Type, t2: Type, b1: nat, b2: nat)
    requires
        link_of(s, t2, b2),
        req(s, t1, link_target(s, t2), b1, rank_of(s, t2)),
    ensures
        req(s, t1, t2, b1, b2),
    decreases b1,
{
    if link_of(s, t1, b1) {
        let u2 = link_target(s, t2);
        let r2 = rank_of(s, t2);
        if link_of(s, u2, r2) {
            lemma_req_link_right(s, link_target(s, t1), u2, rank_of(s, t1), r2);
        }
    }
}

/// A link variable is the same as a type when the type that it links to is.
pub proof fn lemma_req_link_left(s: StoreView, t1: Type, t2: Type, b1: nat, b2: nat)
    requires
        link_of(s, t1, b1),
        req(s, link_target(s, t1), t2, rank_of(s, t1), b2),
    ensures
        req(s, t1, t2, b1, b2),
{
    lemma_req_sym(s, link_target(s, t1), t2, rank_of(s, t1), b2);
    lemma_req_link_right(s, t2, t1, b2, b1);
    lemma_req_sym(s, t2, t1, b2, b1);
}

/// Whether two types are the same does not depend on the bounds, as long as
/// they cover the types.
pub proof fn lemma_req_bounds(s: StoreView, t1: Type, t2: Type, b1: nat, b2: nat, c1: nat, c2: nat)
    requires
        s.wf(),
        type_below(t1, s.len(), s.rank, b1),
        type_below(t2, s.len(), s.rank, b2),
        type_below(t1, s.len(), s.rank, c1),
        type_below(t2, s.len(), s.rank, c2),
        req(s, t1, t2, b1, b2),
    ensures
        req(s, t1, t2, c1, c2),
    decreases b1 + b2, t1,
{
    if link_of(s, t1, b1) && link_of(s, t2, b2) {
    } else if link_of(s, t1, b1) {
        let k = t1->type_ as int;
        lemma_req_bounds(s, link_target(s, t1), t2, rank_of(s, t1), b2, rank_of(s, t1), c2);
    } else if link_of(s, t2, b2) {
        let k = t2->type_ as int;
        lemma_req_bounds(s, t1, link_target(s, t2), b1, rank_of(s, t2), c1, rank_of(s, t2));
    } else {
        match t1 {
            Type::Named { args: a1, .. } => match t2 {
                Type::Named { args: a2, .. } => lemma_req_bounds_list(s, a1, a2, b1, b2, c1, c2),
                _ => {},
            },
            Type::Fn { args: a1, retrn: r1 } => match t2 {
                Type::Fn { args: a2, retrn: r2 } => {
                    lemma_req_bounds_list(s, a1, a2, b1, b2, c1, c2);
                    lemma_req_bounds(s, *r1, *r2, b1, b2, c1, c2);
                },
                _ => {},
            },
            Type::Var { .. } => {},
            Type::Tuple { elems: e1 } => match t2 {
                Type::Tuple { elems: e2 } => lemma_req_bounds_list(s, e1, e2, b1, b2, c1, c2),
                _ => {},
            },
        }
    }
}

pub proof fn lemma_req_bounds_list(
    s: StoreView,
    l1: TypeList,
    l2: TypeList,
    b1: nat,
    b2: nat,
    c1: nat,
    c2: nat,
)
    requires
        s.wf(),
        list_below(l1, s.len(), s.rank, b1),
        list_below(l2, s.len(), s.rank, b2),
        list_below(l1, s.len(), s.rank, c1),
        list_below(l2, s.len(), s.rank, c2),
        req_list(s, l1, l2, b1, b2),
    ensures
        req_list(s, l1, l2, c1, c2),
    decreases b1 + b2, l1,
{
    match l1 {
        TypeList::Nil => {},
        TypeList::Cons { head: h1, tail: r1 } => match l2 {
            TypeList::Cons { head: h2, tail: r2 } => {
                lemma_req_bounds(s, *h1, *h2, b1, b2, c1, c2);
                lemma_req_bounds_list(s, *r1, *r2, b1, b2, c1, c2);
            },
            TypeList::Nil => {},
        },
    }
}

/// Binding unbound cells keeps types the same, as long as no two unbound
/// cells share an id.
pub proof fn lemma_req_extend(
    s: StoreView,
    s2: StoreView,
    t1: Type,
    t2: Type,
    b1: nat,
    b2: nat,
    c1: nat,
    c2: nat,
)
    requires
        s.wf(),
        s2.wf(),
        s.extended_by(s2),
        s.unique_unbound_ids(),
        type_below(t1, s.len(), s.rank, b1),
        type_below(t2, s.len(), s.rank, b2),
        type_below(t1, s2.len(), s2.rank, c1),
        type_below(t2, s2.len(), s2.rank, c2),
        req(s, t1, t2, b1, b2),
    ensures
        req(s2, t1, t2, c1, c2),
    decreases b1 + b2, t1,
{
    if link_of(s, t1, b1) && link_of(s, t2, b2) {
        let j1 = t1->type_ as int;
        let j2 = t2->type_ as int;
        assert(s2.cells[j1] == s.cells[j1]);
        assert(s2.cells[j2] == s.cells[j2]);
        lemma_req_extend(
            s,
            s2,
            link_target(s, t1),
            link_target(s, t2),
            s.rank[j1],
            s.rank[j2],
            s2.rank[j1],
            s2.rank[j2],
        );
    } else if link_of(s, t1, b1) {
        let j1 = t1->type_ as int;
        assert(s2.cells[j1] == s.cells[j1]);
        lemma_req_extend(s, s2, link_target(s, t1), t2, s.rank[j1], b2, s2.rank[j1], c2);
        lemma_req_link_left(s2, t1, t2, c1, c2);
    } else if link_of(s, t2, b2) {
        let j2 = t2->type_ as int;
        assert(s2.cells[j2] == s.cells[j2]);
        lemma_req_extend(s, s2, t1, link_target(s, t2), b1, s.rank[j2], c1, s2.rank[j2]);
        lemma_req_link_right(s2, t1, t2, c1, c2);
    } else {
        match t1 {
            Type::Named { args: a1, .. } => match t2 {
                Type::Named { args: a2, .. } => lemma_req_extend_list(s, s2, a1, a2, b1, b2, c1, c2),
                _ => {},
            },
            Type::Fn { args: a1, retrn: r1 } => match t2 {
                Type::Fn { args: a2, retrn: r2 } => {
                    lemma_req_extend_list(s, s2, a1, a2, b1, b2, c1, c2);
                    lemma_req_extend(s, s2, *r1, *r2, b1, b2, c1, c2);
                },
                _ => {},
            },
            Type::Var { type_: v1 } => match t2 {
                Type::Var { type_: v2 } => {
                    if s.cells[v1 as int] is Unbound {
                        assert(v1 == v2);
                        lemma_req_refl(s2, t1, c1, c2);
                    } else {
                        assert(s2.cells[v1 as int] == s.cells[v1 as int]);
                        assert(s2.cells[v2 as int] == s.cells[v2 as int]);
                    }
                },
                _ => {},
            },
            Type::Tuple { elems: e1 } => match t2 {
                Type::Tuple { elems: e2 } => lemma_req_extend_list(s, s2, e1, e2, b1, b2, c1, c2),
                _ => {},
            },
        }
    }
}

pub proof fn lemma_req_extend_list(
    s: StoreView,
    s2: StoreView,
    l1: TypeList,
    l2: TypeList,
    b1: nat,
    b2: nat,
    c1: nat,
    c2: nat,
)
    requires
        s.wf(),
        s2.wf(),
        s.extended_by(s2),
        s.unique_unbound_ids(),
        list_below(l1, s.len(), s.rank, b1),
        list_below(l2, s.len(), s.rank, b2),
        list_below(l1, s2.len(), s2.rank, c1),
        list_below(l2, s2.len(), s2.rank, c2),
        req_list(s, l1, l2, b1, b2),
    ensures
        req_list(s2, l1, l2, c1, c2),
    decreases b1 + b2, l1,
{
    match l1 {
        TypeList::Nil => {},
        TypeList::Cons { head: h1, tail: r1 } => match l2 {
            TypeList::Cons { head: h2, tail: r2 } => {
                lemma_req_extend(s, s2, *h1, *h2, b1, b2, c1, c2);
                lemma_req_extend_list(s, s2, *r1, *r2, b1, b2, c1, c2);
            },
            TypeList::Nil => {},
        },
    }
}


/// A type that is the same as a link variable is the same as the type the
/// variable links to.
pub proof fn lemma_req_unlink_right(s: StoreView, t1: Type, t2: Type, b1: nat, b2: nat)
    requires
        link_of(s, t2, b2),
        req(s, t1, t2, b1, b2),
    ensures
        req(s, t1, link_target(s, t2), b1, rank_of(s, t2)),
    decreases b1,
{
    if link_of(s, t1, b1) {
        let u2 = link_target(s, t2);
        let r2 = rank_of(s, t2);
        if link_of(s, u2, r2) {
            lemma_req_unlink_right(s, link_target(s, t1), u2, rank_of(s, t1), r2);
        }
    }
}

} // verus!
