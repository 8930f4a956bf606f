//! Instantiation: a fresh unbound variable for each generic variable of a
//! type.

use vstd::prelude::*;
use crate::types::{copy_type, copy_var, list_below, type_below, StoreView, Type, TypeList, TypeVar};
use crate::name_map::{lists, NameMap};
use crate::persistent::{instantiated, instantiated_get, instantiated_insert};
use crate::environment::{id_after, lemma_id_after_value, Environment};

verus! {

/// What turns type annotations into types: it knows the type variables
/// that were named in annotations, which must not be instantiated.
pub struct Hydrator {
    pub rigid_type_names: NameMap<u64>,
}

impl Hydrator {
    /// The generic `id` was named in an annotation.
    pub open spec fn spec_is_rigid(&self, id: u64) -> bool {
        exists|k: Seq<char>| #[trigger] self.rigid_type_names@.contains_key(k) && self.rigid_type_names@[k] == id
    }

    pub fn is_rigid(&self, id: u64) -> (r: bool)
        ensures
            r == self.spec_is_rigid(id),
    {
        let n = self.rigid_type_names.len();
        let mut i: usize = 0;
        while i < n
            invariant
                n == self.rigid_type_names.pairs().len(),
                lists(self.rigid_type_names.pairs(), self.rigid_type_names@),
                i <= n,
                forall|j: int| 0 <= j < i ==> (#[trigger] self.rigid_type_names.pairs()[j]).1 != id,
            decreases n - i,
        {
            if *self.rigid_type_names.value_at(i) == id {
                proof {
                    let k = self.rigid_type_names.pairs()[i as int].0;
                    assert(self.rigid_type_names@.contains_key(k));
                }
                return true;
            }
            i = i + 1;
        }
        proof {
            assert forall|k: Seq<char>| #[trigger] self.rigid_type_names@.contains_key(k) implies self.rigid_type_names@[k] != id by {
                let j = choose|j: int| 0 <= j < n && (#[trigger] self.rigid_type_names.pairs()[j]).0 == k;
            }
        }
        false
    }
}

/// `t`, read through links, mentions a generic cell with this id.
pub open spec fn has_generic(s: StoreView, t: Type, id: u64, b: nat) -> bool
    decreases b, t,
{
    match t {
        Type::Named { args, .. } => has_generic_list(s, args, id, b),
        Type::Fn { args, retrn } => has_generic_list(s, args, id, b) || has_generic(s, *retrn, id, b),
        Type::Var { type_ } => type_ < s.len() && (s.cells[type_ as int] == (TypeVar::Generic { id })
            || (s.cells[type_ as int] is Link && s.rank[type_ as int] < b && has_generic(
            s,
            s.cells[type_ as int]->type_,
            id,
            s.rank[type_ as int],
        ))),
        Type::Tuple { elems } => has_generic_list(s, elems, id, b),
    }
}

pub open spec fn has_generic_list(s: StoreView, l: TypeList, id: u64, b: nat) -> bool
    decreases b, l,
{
    match l {
        TypeList::Nil => false,
        TypeList::Cons { head, tail } => has_generic(s, *head, id, b) || has_generic_list(s, *tail, id, b),
    }
}

/// `t` with its links followed and each generic variable that `m` has an
/// entry for replaced by that entry.
pub open spec fn inst(s: StoreView, t: Type, m: Map<u64, Type>, b: nat) -> Type
    decreases b, t,
{
    match t {
        Type::Named { publicity, package, module, name, args } => Type::Named {
            publicity,
            package,
            module,
            name,
            args: inst_list(s, args, m, b),
        },
        Type::Fn { args, retrn } => Type::Fn { args: inst_list(s, args, m, b), retrn: Box::new(inst(s, *retrn, m, b)) },
        Type::Var { type_ } => if type_ < s.len() {
            match s.cells[type_ as int] {
                TypeVar::Link { type_: u } => if s.rank[type_ as int] < b {
                    inst(s, u, m, s.rank[type_ as int])
                } else {
                    t
                },
                TypeVar::Unbound { .. } => t,
                TypeVar::Generic { id } => if m.contains_key(id) {
                    m[id]
                } else {
                    t
                },
            }
        } else {
            t
        },
        Type::Tuple { elems } => Type::Tuple { elems: inst_list(s, elems, m, b) },
    }
}

pub open spec fn inst_list(s: StoreView, l: TypeList, m: Map<u64, Type>, b: nat) -> TypeList
    decreases b, l,
{
    match l {
        TypeList::Nil => TypeList::Nil,
        TypeList::Cons { head, tail } => TypeList::Cons {
            head: Box::new(inst(s, *head, m, b)),
            tail: Box::new(inst_list(s, *tail, m, b)),
        },
    }
}

/// The maps agree on the generic ids that `t` mentions.
pub open spec fn agree_on(s: StoreView, t: Type, b: nat, m1: Map<u64, Type>, m2: Map<u64, Type>) -> bool {
    forall|id: u64|
        #[trigger] has_generic(s, t, id, b) ==> (m1.contains_key(id) <==> m2.contains_key(id)) && (m1.contains_key(id)
            ==> m1[id] == m2[id])
}

pub open spec fn agree_on_list(s: StoreView, l: TypeList, b: nat, m1: Map<u64, Type>, m2: Map<u64, Type>) -> bool {
    forall|id: u64|
        #[trigger] has_generic_list(s, l, id, b) ==> (m1.contains_key(id) <==> m2.contains_key(id)) && (
        m1.contains_key(id) ==> m1[id] == m2[id])
}

proof fn lemma_inst_agree(s: StoreView, t: Type, b: nat, m1: Map<u64, Type>, m2: Map<u64, Type>)
    requires
        agree_on(s, t, b, m1, m2),
    ensures
        inst(s, t, m1, b) == inst(s, t, m2, b),
    decreases b, t,
{
    match t {
        Type::Named { args, .. } => {
            assert forall|id: u64| #[trigger] has_generic_list(s, args, id, b) implies (m1.contains_key(id) <==> m2.contains_key(id))
                && (m1.contains_key(id) ==> m1[id] == m2[id]) by {
                assert(has_generic(s, t, id, b));
            }
            lemma_inst_agree_list(s, args, b, m1, m2)
        },
        Type::Fn { args, retrn } => {
            assert forall|id: u64| #[trigger] has_generic_list(s, args, id, b) implies (m1.contains_key(id) <==> m2.contains_key(id))
                && (m1.contains_key(id) ==> m1[id] == m2[id]) by {
                assert(has_generic(s, t, id, b));
            }
            assert forall|id: u64| #[trigger] has_generic(s, *retrn, id, b) implies (m1.contains_key(id) <==> m2.contains_key(id))
                && (m1.contains_key(id) ==> m1[id] == m2[id]) by {
                assert(has_generic(s, t, id, b));
            }
            lemma_inst_agree_list(s, args, b, m1, m2);
            lemma_inst_agree(s, *retrn, b, m1, m2);
        },
        Type::Var { type_ } => {
            if type_ < s.len() {
                match s.cells[type_ as int] {
                    TypeVar::Link { type_: u } => if s.rank[type_ as int] < b {
                        assert forall|id: u64| #[trigger] has_generic(s, u, id, s.rank[type_ as int]) implies (m1.contains_key(id)
                            <==> m2.contains_key(id)) && (m1.contains_key(id) ==> m1[id] == m2[id]) by {
                            assert(has_generic(s, t, id, b));
                        }
                        lemma_inst_agree(s, u, s.rank[type_ as int], m1, m2);
                    },
                    TypeVar::Generic { id } => {
                        assert(has_generic(s, t, id, b));
                    },
                    _ => {},
                }
            }
        },
        Type::Tuple { elems } => {
            assert forall|id: u64| #[trigger] has_generic_list(s, elems, id, b) implies (m1.contains_key(id) <==> m2.contains_key(id))
                && (m1.contains_key(id) ==> m1[id] == m2[id]) by {
                assert(has_generic(s, t, id, b));
            }
            lemma_inst_agree_list(s, elems, b, m1, m2)
        },
    }
}

proof fn lemma_inst_agree_list(s: StoreView, l: TypeList, b: nat, m1: Map<u64, Type>, m2: Map<u64, Type>)
    requires
        agree_on_list(s, l, b, m1, m2),
    ensures
        inst_list(s, l, m1, b) == inst_list(s, l, m2, b),
    decreases b, l,
{
    match l {
        TypeList::Nil => {},
        TypeList::Cons { head, tail } => {
            assert forall|id: u64| #[trigger] has_generic(s, *head, id, b) implies (m1.contains_key(id) <==> m2.contains_key(id))
                && (m1.contains_key(id) ==> m1[id] == m2[id]) by {
                assert(has_generic_list(s, l, id, b));
            }
            assert forall|id: u64| #[trigger] has_generic_list(s, *tail, id, b) implies (m1.contains_key(id) <==> m2.contains_key(id))
                && (m1.contains_key(id) ==> m1[id] == m2[id]) by {
                assert(has_generic_list(s, l, id, b));
            }
            lemma_inst_agree(s, *head, b, m1, m2);
            lemma_inst_agree_list(s, *tail, b, m1, m2);
        },
    }
}

/// Whether a type mentions a generic id does not change when cells are
/// added after those it mentions.
proof fn lemma_has_generic_prefix(s1: StoreView, s2: StoreView, t: Type, g: u64, b: nat)
    requires
        s1.wf(),
        prefix_of(s1, s2),
        type_below(t, s1.len(), s1.rank, b),
    ensures
        has_generic(s2, t, g, b) == has_generic(s1, t, g, b),
    decreases b, t,
{
    match t {
        Type::Named { args, .. } => lemma_has_generic_prefix_list(s1, s2, args, g, b),
        Type::Fn { args, retrn } => {
            lemma_has_generic_prefix_list(s1, s2, args, g, b);
            lemma_has_generic_prefix(s1, s2, *retrn, g, b);
        },
        Type::Var { type_: v } => {
            assert(s2.cells[v as int] == s1.cells[v as int]);
            assert(s2.rank[v as int] == s1.rank[v as int]);
            if s1.cells[v as int] is Link {
                lemma_has_generic_prefix(s1, s2, s1.cells[v as int]->type_, g, s1.rank[v as int]);
            }
        },
        Type::Tuple { elems } => lemma_has_generic_prefix_list(s1, s2, elems, g, b),
    }
}

proof fn lemma_has_generic_prefix_list(s1: StoreView, s2: StoreView, l: TypeList, g: u64, b: nat)
    requires
        s1.wf(),
        prefix_of(s1, s2),
        list_below(l, s1.len(), s1.rank, b),
    ensures
        has_generic_list(s2, l, g, b) == has_generic_list(s1, l, g, b),
    decreases b, l,
{
    match l {
        TypeList::Nil => {},
        TypeList::Cons { head, tail } => {
            lemma_has_generic_prefix(s1, s2, *head, g, b);
            lemma_has_generic_prefix_list(s1, s2, *tail, g, b);
        },
    }
}

/// Instantiation leaves no generic variable that is not rigid: when the
/// map has an entry for each generic id of `t` that the hydrator does not
/// hold rigid, and no entry mentions the non-rigid generic `g`, then `t`
/// with its links followed and its generic variables replaced by their
/// entries does not mention `g`, read in `s0` or in any store that only
/// adds cells after those of `s0`.
pub proof fn lemma_inst_leaves_no_generic(
    s0: StoreView,
    s2: StoreView,
    t: Type,
    m: Map<u64, Type>,
    hydrator: Hydrator,
    b: nat,
    bb: nat,
    g: u64,
)
    requires
        s0.wf(),
        prefix_of(s0, s2),
        type_below(t, s0.len(), s0.rank, b),
        !hydrator.spec_is_rigid(g),
        forall|k: u64| #[trigger] has_generic(s0, t, k, b) && !hydrator.spec_is_rigid(k) ==> m.contains_key(k),
        forall|k: u64| #[trigger] m.contains_key(k) ==> !has_generic(s2, m[k], g, bb),
    ensures
        !has_generic(s2, inst(s0, t, m, b), g, bb),
    decreases b, t,
{
    match t {
        Type::Named { args, .. } => {
            assert forall|k: u64| #[trigger] has_generic_list(s0, args, k, b) && !hydrator.spec_is_rigid(k) implies m.contains_key(k) by {
                assert(has_generic(s0, t, k, b));
            }
            lemma_inst_leaves_no_generic_list(s0, s2, args, m, hydrator, b, bb, g);
        },
        Type::Fn { args, retrn } => {
            assert forall|k: u64| #[trigger] has_generic_list(s0, args, k, b) && !hydrator.spec_is_rigid(k) implies m.contains_key(k) by {
                assert(has_generic(s0, t, k, b));
            }
            assert forall|k: u64| #[trigger] has_generic(s0, *retrn, k, b) && !hydrator.spec_is_rigid(k) implies m.contains_key(k) by {
                assert(has_generic(s0, t, k, b));
            }
            lemma_inst_leaves_no_generic_list(s0, s2, args, m, hydrator, b, bb, g);
            lemma_inst_leaves_no_generic(s0, s2, *retrn, m, hydrator, b, bb, g);
        },
        Type::Var { type_: v } => {
            assert(s2.cells[v as int] == s0.cells[v as int]);
            match s0.cells[v as int] {
                TypeVar::Link { type_: u } => {
                    assert forall|k: u64| #[trigger] has_generic(s0, u, k, s0.rank[v as int]) && !hydrator.spec_is_rigid(k)
                        implies m.contains_key(k) by {
                        assert(has_generic(s0, t, k, b));
                    }
                    lemma_inst_leaves_no_generic(s0, s2, u, m, hydrator, s0.rank[v as int], bb, g);
                },
                TypeVar::Unbound { .. } => {},
                TypeVar::Generic { id } => {
                    if !m.contains_key(id) && id == g {
                        assert(has_generic(s0, t, g, b));
                    }
                },
            }
        },
        Type::Tuple { elems } => {
            assert forall|k: u64| #[trigger] has_generic_list(s0, elems, k, b) && !hydrator.spec_is_rigid(k) implies m.contains_key(k) by {
                assert(has_generic(s0, t, k, b));
            }
            lemma_inst_leaves_no_generic_list(s0, s2, elems, m, hydrator, b, bb, g);
        },
    }
}

pub proof fn lemma_inst_leaves_no_generic_list(
    s0: StoreView,
    s2: StoreView,
    l: TypeList,
    m: Map<u64, Type>,
    hydrator: Hydrator,
    b: nat,
    bb: nat,
    g: u64,
)
    requires
        s0.wf(),
        prefix_of(s0, s2),
        list_below(l, s0.len(), s0.rank, b),
        !hydrator.spec_is_rigid(g),
        forall|k: u64| #[trigger] has_generic_list(s0, l, k, b) && !hydrator.spec_is_rigid(k) ==> m.contains_key(k),
        forall|k: u64| #[trigger] m.contains_key(k) ==> !has_generic(s2, m[k], g, bb),
    ensures
        !has_generic_list(s2, inst_list(s0, l, m, b), g, bb),
    decreases b, l,
{
    match l {
        TypeList::Nil => {},
        TypeList::Cons { head, tail } => {
            assert forall|k: u64| #[trigger] has_generic(s0, *head, k, b) && !hydrator.spec_is_rigid(k) implies m.contains_key(k) by {
                assert(has_generic_list(s0, l, k, b));
            }
            assert forall|k: u64| #[trigger] has_generic_list(s0, *tail, k, b) && !hydrator.spec_is_rigid(k) implies m.contains_key(k) by {
                assert(has_generic_list(s0, l, k, b));
            }
            lemma_inst_leaves_no_generic(s0, s2, *head, m, hydrator, b, bb, g);
            lemma_inst_leaves_no_generic_list(s0, s2, *tail, m, hydrator, b, bb, g);
        },
    }
}

/// The generic ids that instantiating `t` gives new variables, in the order
/// in which it meets them, reading through links: each id that `known` does
/// not hold and the hydrator does not hold rigid, at its first occurrence.
pub open spec fn fresh_ids(s: StoreView, t: Type, known: Set<u64>, hydrator: Hydrator, b: nat) -> Seq<u64>
    decreases b, t,
{
    match t {
        Type::Named { args, .. } => fresh_ids_list(s, args, known, hydrator, b),
        Type::Fn { args, retrn } => {
            let a = fresh_ids_list(s, args, known, hydrator, b);
            a + fresh_ids(s, *retrn, known + a.to_set(), hydrator, b)
        },
        Type::Var { type_ } => if type_ < s.len() {
            match s.cells[type_ as int] {
                TypeVar::Link { type_: u } => if s.rank[type_ as int] < b {
                    fresh_ids(s, u, known, hydrator, s.rank[type_ as int])
                } else {
                    Seq::empty()
                },
                TypeVar::Unbound { .. } => Seq::empty(),
                TypeVar::Generic { id } => if known.contains(id) || hydrator.spec_is_rigid(id) {
                    Seq::empty()
                } else {
                    seq![id]
                },
            }
        } else {
            Seq::empty()
        },
        Type::Tuple { elems } => fresh_ids_list(s, elems, known, hydrator, b),
    }
}

pub open spec fn fresh_ids_list(s: StoreView, l: TypeList, known: Set<u64>, hydrator: Hydrator, b: nat) -> Seq<u64>
    decreases b, l,
{
    match l {
        TypeList::Nil => Seq::empty(),
        TypeList::Cons { head, tail } => {
            let a = fresh_ids(s, *head, known, hydrator, b);
            a + fresh_ids_list(s, *tail, known + a.to_set(), hydrator, b)
        },
    }
}

/// The `i`th id of `order` has, in `m`, the variable of cell `first + i`.
pub open spec fn placed_in_order(order: Seq<u64>, m: Map<u64, Type>, first: nat) -> bool {
    forall|i: int| 0 <= i < order.len() ==> m[#[trigger] order[i]] == (Type::Var { type_: (first + i) as usize })
}

proof fn lemma_to_set_add(a: Seq<u64>, b: Seq<u64>)
    ensures
        (a + b).to_set() == a.to_set() + b.to_set(),
{
    assert forall|x: u64| #[trigger] (a + b).to_set().contains(x) implies (a.to_set() + b.to_set()).contains(x) by {
        let i = choose|i: int| 0 <= i < (a + b).len() && (a + b)[i] == x;
        if i < a.len() {
            assert(a[i] == x);
        } else {
            assert(b[i - a.len()] == x);
        }
    }
    assert forall|x: u64| #[trigger] (a.to_set() + b.to_set()).contains(x) implies (a + b).to_set().contains(x) by {
        if a.to_set().contains(x) {
            let i = choose|i: int| 0 <= i < a.len() && a[i] == x;
            assert((a + b)[i] == x);
        } else {
            let i = choose|i: int| 0 <= i < b.len() && b[i] == x;
            assert((a + b)[a.len() + i] == x);
        }
    }
    assert((a + b).to_set() =~= a.to_set() + b.to_set());
}

proof fn lemma_no_fresh(known: Set<u64>)
    ensures
        known + Seq::<u64>::empty().to_set() == known,
{
    assert(known + Seq::<u64>::empty().to_set() =~= known);
}

/// Two steps of instantiation, the second from the map the first left,
/// place the ids that they meet in turn.
proof fn lemma_fresh_concat(
    a: Seq<u64>,
    b: Seq<u64>,
    m0: Map<u64, Type>,
    m1: Map<u64, Type>,
    m2: Map<u64, Type>,
    n0: nat,
)
    requires
        m1.dom() == m0.dom() + a.to_set(),
        placed_in_order(a, m1, n0),
        m2.dom() == m1.dom() + b.to_set(),
        placed_in_order(b, m2, n0 + a.len()),
        forall|k: u64| #[trigger] m1.contains_key(k) ==> m2[k] == m1[k],
    ensures
        m2.dom() == m0.dom() + (a + b).to_set(),
        placed_in_order(a + b, m2, n0),
{
    lemma_to_set_add(a, b);
    assert(m2.dom() =~= m0.dom() + (a + b).to_set());
    assert forall|i: int| 0 <= i < (a + b).len() implies m2[#[trigger] (a + b)[i]] == (Type::Var {
        type_: (n0 + i) as usize,
    }) by {
        if i < a.len() {
            assert((a + b)[i] == a[i]);
            assert(a.to_set().contains(a[i]));
            assert(m1.contains_key(a[i]));
        } else {
            assert((a + b)[i] == b[i - a.len()]);
        }
    }
}

/// `s2` is `s` with more cells after it.
pub open spec fn prefix_of(s: StoreView, s2: StoreView) -> bool {
    &&& s.len() <= s2.len()
    &&& forall|i: int| 0 <= i < s.len() ==> #[trigger] s2.cells[i] == s.cells[i]
    &&& forall|i: int| 0 <= i < s.len() ==> #[trigger] s2.rank[i] == s.rank[i]
}

/// A new entry of `m2`: one that `m1` does not have.
pub open spec fn is_new_entry(m1: Map<u64, Type>, m2: Map<u64, Type>, k: u64) -> bool {
    m2.contains_key(k) && !m1.contains_key(k)
}

/// What an instantiation did to the ids map and the environment, from
/// `e1`/`m1` to `e2`/`m2`: the old cells and entries are kept; the new
/// cells are unbound, with the ids handed out in turn; each new entry is
/// for a generic id that the hydrator does not hold rigid and is a new cell
/// of its own, and each new cell is the entry of a new id. Nothing else of
/// the environment changed.
pub open spec fn instantiation_step(
    e1: Environment,
    e2: Environment,
    m1: Map<u64, Type>,
    m2: Map<u64, Type>,
    hydrator: Hydrator,
) -> bool {
    let n1 = e1.type_vars@.len();
    let n2 = e2.type_vars@.len();
    &&& e2.wf()
    &&& prefix_of(e1.type_vars@, e2.type_vars@)
    &&& e2.type_vars@.bound == e1.type_vars@.bound
    &&& forall|c: int| n1 <= c < n2 ==> #[trigger] e2.type_vars@.cells[c] == (TypeVar::Unbound {
        id: id_after(e1.ids.next_id, (c - n1) as nat),
    })
    &&& e2.ids.next_id == id_after(e1.ids.next_id, (n2 - n1) as nat)
    &&& n2 > n1 ==> e2.spec_previous_uid() == id_after(e1.ids.next_id, (n2 - n1 - 1) as nat)
    &&& n2 == n1 ==> e2 == e1
    &&& e2 == (Environment { ids: e2.ids, previous_id: e2.previous_id, type_vars: e2.type_vars, ..e1 })
    &&& forall|k: u64| #[trigger] m1.contains_key(k) ==> m2.contains_key(k) && m2[k] == m1[k]
    &&& forall|k: u64|
        #[trigger] is_new_entry(m1, m2, k) ==> !hydrator.spec_is_rigid(k) && m2[k] is Var && n1 <= m2[k]->type_ < n2
    &&& forall|k1: u64, k2: u64|
        #[trigger] is_new_entry(m1, m2, k1) && #[trigger] is_new_entry(m1, m2, k2) && k1 != k2 ==> m2[k1] != m2[k2]
    &&& forall|c: int| n1 <= c < n2 ==> #[trigger] cell_of_new_entry(m1, m2, c)
}

/// The cell `c` is the variable of a new entry of `m2`.
pub open spec fn cell_of_new_entry(m1: Map<u64, Type>, m2: Map<u64, Type>, c: int) -> bool {
    exists|k: u64| #[trigger] is_new_entry(m1, m2, k) && m2[k] == (Type::Var { type_: c as usize })
}

proof fn lemma_id_after_add(a: u64, x: nat, y: nat)
    ensures
        id_after(id_after(a, x), y) == id_after(a, x + y),
    decreases y,
{
    if y > 0 {
        lemma_id_after_add(a, x, (y - 1) as nat);
        assert(id_after(a, x + y) == id_after(a, (x + y - 1) as nat).wrapping_add(1));
    }
}

proof fn lemma_prefix_trans(s0: StoreView, s1: StoreView, s2: StoreView)
    requires
        prefix_of(s0, s1),
        prefix_of(s1, s2),
    ensures
        prefix_of(s0, s2),
{
    assert forall|i: int| 0 <= i < s0.len() implies #[trigger] s2.cells[i] == s0.cells[i] by {
        assert(s1.cells[i] == s0.cells[i]);
    }
    assert forall|i: int| 0 <= i < s0.len() implies #[trigger] s2.rank[i] == s0.rank[i] by {
        assert(s1.rank[i] == s0.rank[i]);
    }
}

proof fn lemma_step_refl(e: Environment, m: Map<u64, Type>, hydrator: Hydrator)
    requires
        e.wf(),
    ensures
        instantiation_step(e, e, m, m, hydrator),
{
    assert(id_after(e.ids.next_id, 0) == e.ids.next_id);
}

proof fn lemma_step_trans(
    e0: Environment,
    e1: Environment,
    e2: Environment,
    m0: Map<u64, Type>,
    m1: Map<u64, Type>,
    m2: Map<u64, Type>,
    hydrator: Hydrator,
)
    requires
        instantiation_step(e0, e1, m0, m1, hydrator),
        instantiation_step(e1, e2, m1, m2, hydrator),
    ensures
        instantiation_step(e0, e2, m0, m2, hydrator),
{
    let n0 = e0.type_vars@.len();
    let n1 = e1.type_vars@.len();
    let n2 = e2.type_vars@.len();
    let x0 = e0.ids.next_id;
    let x1 = e1.ids.next_id;
    lemma_prefix_trans(e0.type_vars@, e1.type_vars@, e2.type_vars@);
    assert forall|c: int| n0 <= c < n2 implies #[trigger] e2.type_vars@.cells[c] == (TypeVar::Unbound {
        id: id_after(x0, (c - n0) as nat),
    }) by {
        if c < n1 {
            assert(e1.type_vars@.cells[c] == (TypeVar::Unbound { id: id_after(x0, (c - n0) as nat) }));
        } else {
            lemma_id_after_add(x0, (n1 - n0) as nat, (c - n1) as nat);
        }
    }
    lemma_id_after_add(x0, (n1 - n0) as nat, (n2 - n1) as nat);
    if n2 > n1 {
        lemma_id_after_add(x0, (n1 - n0) as nat, (n2 - n1 - 1) as nat);
    }
    assert forall|k: u64| #[trigger] is_new_entry(m0, m2, k) implies !hydrator.spec_is_rigid(k) && m2[k] is Var && n0
        <= m2[k]->type_ < n2 by {
        if m1.contains_key(k) {
            assert(is_new_entry(m0, m1, k));
        } else {
            assert(is_new_entry(m1, m2, k));
        }
    }
    assert forall|k1: u64, k2: u64|
        #[trigger] is_new_entry(m0, m2, k1) && #[trigger] is_new_entry(m0, m2, k2) && k1 != k2 implies m2[k1] != m2[k2] by {
        if m1.contains_key(k1) {
            assert(is_new_entry(m0, m1, k1));
        } else {
            assert(is_new_entry(m1, m2, k1));
        }
        if m1.contains_key(k2) {
            assert(is_new_entry(m0, m1, k2));
        } else {
            assert(is_new_entry(m1, m2, k2));
        }
    }
    assert forall|c: int| n0 <= c < n2 implies #[trigger] cell_of_new_entry(m0, m2, c) by {
        if c < n1 {
            assert(cell_of_new_entry(m0, m1, c));
        } else {
            assert(cell_of_new_entry(m1, m2, c));
        }
        if c < n1 {
            let k = choose|k: u64| #[trigger] is_new_entry(m0, m1, k) && m1[k] == (Type::Var { type_: c as usize });
            assert(is_new_entry(m0, m2, k));
        } else {
            let k = choose|k: u64| #[trigger] is_new_entry(m1, m2, k) && m2[k] == (Type::Var { type_: c as usize });
            assert(is_new_entry(m0, m2, k));
        }
    }
}

/// An instantiation keeps the ids fresh as long as the generator's counter
/// did not wrap around while it handed out ids.
proof fn lemma_step_keeps_fresh(e1: Environment, e2: Environment, m1: Map<u64, Type>, m2: Map<u64, Type>, hydrator: Hydrator)
    requires
        instantiation_step(e1, e2, m1, m2, hydrator),
        e1.ids_fresh(),
        e1.ids.next_id + (e2.type_vars@.len() - e1.type_vars@.len()) <= u64::MAX,
    ensures
        e2.ids_fresh(),
{
    let s1 = e1.type_vars@;
    let s2 = e2.type_vars@;
    let n1 = s1.len();
    let n2 = s2.len();
    let x = e1.ids.next_id;
    assert forall|k: nat| k <= n2 - n1 implies #[trigger] id_after(x, k) == x + k by {
        lemma_id_after_value(x, k);
        vstd::arithmetic::div_mod::lemma_small_mod((x + k) as nat, 0x1_0000_0000_0000_0000nat);
    }
    assert(id_after(x, (n2 - n1) as nat) == x + (n2 - n1));
    assert forall|j: int| 0 <= j < s2.len() && (#[trigger] s2.cells[j]) is Unbound implies s2.cells[j]->Unbound_id
        < e2.ids.next_id by {
        if j < n1 {
            assert(s1.cells[j] == s2.cells[j]);
        } else {
            assert(id_after(x, (j - n1) as nat) == x + (j - n1));
        }
    }
    assert forall|i: int, j: int|
        0 <= i < s2.cells.len() && 0 <= j < s2.cells.len() && i != j && (#[trigger] s2.cells[i]) is Unbound
            && (#[trigger] s2.cells[j]) is Unbound implies s2.cells[i]->Unbound_id != s2.cells[j]->Unbound_id by {
        if i < n1 {
            assert(s1.cells[i] == s2.cells[i]);
        } else {
            assert(id_after(x, (i - n1) as nat) == x + (i - n1));
        }
        if j < n1 {
            assert(s1.cells[j] == s2.cells[j]);
        } else {
            assert(id_after(x, (j - n1) as nat) == x + (j - n1));
        }
    }
}

impl<'a> Environment<'a> {
    /// Instantiate `t`: each generic variable that it mentions, read through
    /// links, is replaced by the type that `ids` has for its id; a generic id
    /// that `ids` has no entry for, and that the hydrator does not hold
    /// rigid, first gets a new unbound variable there, the ids in the order
    /// in which `t` mentions them. Unbound variables and rigid generic
    /// variables stay as they are.
    pub fn instantiate(&mut self, t: Type, ids: &mut im::HashMap<u64, Type>, hydrator: &Hydrator) -> (r: Type)
        requires
            old(self).wf(),
            old(self).type_vars@.holds(t),
        ensures
            r == inst(old(self).type_vars@, t, instantiated(*final(ids)), old(self).type_vars@.bound),
            instantiation_step(*old(self), *final(self), instantiated(*old(ids)), instantiated(*final(ids)), *hydrator),
            forall|k: u64|
                #[trigger] is_new_entry(instantiated(*old(ids)), instantiated(*final(ids)), k) ==> has_generic(
                    old(self).type_vars@,
                    t,
                    k,
                    old(self).type_vars@.bound,
                ),
            forall|k: u64|
                #[trigger] has_generic(old(self).type_vars@, t, k, old(self).type_vars@.bound) && !hydrator.spec_is_rigid(k)
                    ==> instantiated(*final(ids)).contains_key(k),
            (forall|k: u64|
                #[trigger] has_generic(old(self).type_vars@, t, k, old(self).type_vars@.bound) && !hydrator.spec_is_rigid(k)
                    ==> instantiated(*old(ids)).contains_key(k)) ==> *final(self) == *old(self) && instantiated(*final(ids))
                == instantiated(*old(ids)),
            final(self).type_vars@.len() == old(self).type_vars@.len() + fresh_ids(
                old(self).type_vars@,
                t,
                instantiated(*old(ids)).dom(),
                *hydrator,
                old(self).type_vars@.bound,
            ).len(),
            instantiated(*final(ids)).dom() == instantiated(*old(ids)).dom() + fresh_ids(
                old(self).type_vars@,
                t,
                instantiated(*old(ids)).dom(),
                *hydrator,
                old(self).type_vars@.bound,
            ).to_set(),
            placed_in_order(
                fresh_ids(old(self).type_vars@, t, instantiated(*old(ids)).dom(), *hydrator, old(self).type_vars@.bound),
                instantiated(*final(ids)),
                old(self).type_vars@.len(),
            ),
            old(self).ids_fresh() && old(self).ids.next_id + (final(self).type_vars@.len() - old(self).type_vars@.len())
                <= u64::MAX ==> final(self).ids_fresh(),
            (forall|k: u64|
                #[trigger] instantiated(*old(ids)).contains_key(k) ==> old(self).type_vars@.holds(instantiated(*old(ids))[k])
                    && forall|g: u64|
                    !hydrator.spec_is_rigid(g) ==> !#[trigger] has_generic(
                        old(self).type_vars@,
                        instantiated(*old(ids))[k],
                        g,
                        old(self).type_vars@.bound,
                    )) ==> forall|g: u64|
                !hydrator.spec_is_rigid(g) ==> !#[trigger] has_generic(final(self).type_vars@, r, g, final(self).type_vars@.bound),
    {
        let ghost s0 = self.type_vars@;
        let ghost e0 = *self;
        let ghost m0 = instantiated(*ids);
        let r = self.instantiate_below(&t, ids, hydrator, Ghost(s0), Ghost(s0.bound));
        proof {
            let m1 = m0;
            let m2 = instantiated(*ids);
            let s2 = self.type_vars@;
            if forall|k: u64|
                #[trigger] m1.contains_key(k) ==> s0.holds(m1[k]) && forall|g: u64|
                    !hydrator.spec_is_rigid(g) ==> !#[trigger] has_generic(s0, m1[k], g, s0.bound) {
                assert forall|g: u64| !hydrator.spec_is_rigid(g) implies !#[trigger] has_generic(s2, r, g, s2.bound) by {
                    assert forall|k: u64| #[trigger] m2.contains_key(k) implies !has_generic(s2, m2[k], g, s0.bound) by {
                        if m1.contains_key(k) {
                            lemma_has_generic_prefix(s0, s2, m1[k], g, s0.bound);
                            assert(!has_generic(s0, m1[k], g, s0.bound));
                        } else {
                            assert(is_new_entry(m1, m2, k));
                            let c = m2[k]->type_;
                            assert(s2.cells[c as int] is Unbound);
                        }
                    }
                    lemma_inst_leaves_no_generic(s0, s2, t, m2, *hydrator, s0.bound, s0.bound, g);
                }
            }
            if e0.ids_fresh() && e0.ids.next_id + (self.type_vars@.len() - s0.len()) <= u64::MAX {
                lemma_step_keeps_fresh(e0, *self, m0, instantiated(*ids), *hydrator);
            }
            let m2 = instantiated(*ids);
            if forall|k: u64| #[trigger] has_generic(s0, t, k, s0.bound) && !hydrator.spec_is_rigid(k) ==> m0.contains_key(k) {
                assert forall|k: u64| !(#[trigger] is_new_entry(m0, m2, k)) by {
                    if is_new_entry(m0, m2, k) {
                        assert(has_generic(s0, t, k, s0.bound));
                    }
                }
                if self.type_vars@.len() > s0.len() {
                    assert(cell_of_new_entry(m0, m2, s0.len() as int));
                }
                assert forall|k: u64| #[trigger] m2.contains_key(k) implies m0.contains_key(k) by {
                    assert(!is_new_entry(m0, m2, k));
                }
                assert(m2 =~= m0);
            }
        }
        r
    }

    fn instantiate_below(
        &mut self,
        t: &Type,
        ids: &mut im::HashMap<u64, Type>,
        hydrator: &Hydrator,
        Ghost(s0): Ghost<StoreView>,
        Ghost(b): Ghost<nat>,
    ) -> (r: Type)
        requires
            old(self).wf(),
            s0.wf(),
            prefix_of(s0, old(self).type_vars@),
            type_below(*t, s0.len(), s0.rank, b),
        ensures
            r == inst(s0, *t, instantiated(*final(ids)), b),
            instantiation_step(*old(self), *final(self), instantiated(*old(ids)), instantiated(*final(ids)), *hydrator),
            forall|k: u64|
                #[trigger] is_new_entry(instantiated(*old(ids)), instantiated(*final(ids)), k) ==> has_generic(s0, *t, k, b),
            forall|k: u64|
                #[trigger] has_generic(s0, *t, k, b) && !hydrator.spec_is_rigid(k) ==> instantiated(*final(ids)).contains_key(k),
            final(self).type_vars@.len() == old(self).type_vars@.len() + fresh_ids(
                s0,
                *t,
                instantiated(*old(ids)).dom(),
                *hydrator,
                b,
            ).len(),
            instantiated(*final(ids)).dom() == instantiated(*old(ids)).dom() + fresh_ids(
                s0,
                *t,
                instantiated(*old(ids)).dom(),
                *hydrator,
                b,
            ).to_set(),
            placed_in_order(
                fresh_ids(s0, *t, instantiated(*old(ids)).dom(), *hydrator, b),
                instantiated(*final(ids)),
                old(self).type_vars@.len(),
            ),
        decreases b, t,
    {
        let ghost e0 = *self;
        let ghost m0 = instantiated(*ids);
        match t {
            Type::Named { publicity, package, module, name, args } => {
                let args2 = self.instantiate_list_below(args, ids, hydrator, Ghost(s0), Ghost(b));
                assert forall|k: u64| #[trigger] has_generic(s0, *t, k, b) && !hydrator.spec_is_rigid(k) implies instantiated(
                    *ids,
                ).contains_key(k) by {
                    assert(has_generic_list(s0, *args, k, b));
                }
                Type::Named {
                    publicity: *publicity,
                    package: package.clone(),
                    module: module.clone(),
                    name: name.clone(),
                    args: args2,
                }
            },
            Type::Fn { args, retrn } => {
                let args2 = self.instantiate_list_below(args, ids, hydrator, Ghost(s0), Ghost(b));
                let ghost e1 = *self;
                let ghost m1 = instantiated(*ids);
                proof {
                    lemma_prefix_trans(s0, e0.type_vars@, e1.type_vars@);
                }
                let retrn2 = self.instantiate_below(retrn, ids, hydrator, Ghost(s0), Ghost(b));
                let ghost m2 = instantiated(*ids);
                proof {
                    lemma_step_trans(e0, e1, *self, m0, m1, m2, *hydrator);
                    assert forall|k: u64| #[trigger] has_generic_list(s0, *args, k, b) implies (m1.contains_key(k)
                        <==> m2.contains_key(k)) && (m1.contains_key(k) ==> m1[k] == m2[k]) by {
                        if m2.contains_key(k) && !m1.contains_key(k) {
                            assert(is_new_entry(m1, m2, k));
                        }
                    }
                    lemma_inst_agree_list(s0, *args, b, m1, m2);
                    assert forall|k: u64| #[trigger] is_new_entry(m0, m2, k) implies has_generic(s0, *t, k, b) by {
                        if m1.contains_key(k) {
                            assert(is_new_entry(m0, m1, k));
                        } else {
                            assert(is_new_entry(m1, m2, k));
                        }
                    }
                    assert forall|k: u64| #[trigger] has_generic(s0, *t, k, b) && !hydrator.spec_is_rigid(k) implies m2.contains_key(k) by {
                        if has_generic_list(s0, *args, k, b) {
                            assert(m1.contains_key(k));
                        } else {
                            assert(has_generic(s0, **retrn, k, b));
                        }
                    }
                    let a = fresh_ids_list(s0, *args, m0.dom(), *hydrator, b);
                    let c = fresh_ids(s0, **retrn, m1.dom(), *hydrator, b);
                    assert(m1.dom() == m0.dom() + a.to_set());
                    assert(fresh_ids(s0, *t, m0.dom(), *hydrator, b) == a + c);
                    lemma_fresh_concat(a, c, m0, m1, m2, e0.type_vars@.len());
                }
                Type::Fn { args: args2, retrn: Box::new(retrn2) }
            },
            Type::Tuple { elems } => {
                let elems2 = self.instantiate_list_below(elems, ids, hydrator, Ghost(s0), Ghost(b));
                assert forall|k: u64| #[trigger] has_generic(s0, *t, k, b) && !hydrator.spec_is_rigid(k) implies instantiated(
                    *ids,
                ).contains_key(k) by {
                    assert(has_generic_list(s0, *elems, k, b));
                }
                Type::Tuple { elems: elems2 }
            },
            Type::Var { type_: v } => {
                let v = *v;
                let cell = copy_var(self.type_vars.get(v));
                assert(cell == s0.cells[v as int]);
                match cell {
                    TypeVar::Link { type_: u } => {
                        let r = self.instantiate_below(&u, ids, hydrator, Ghost(s0), Ghost(s0.rank[v as int]));
                        proof {
                            let m2 = instantiated(*ids);
                            assert forall|k: u64| #[trigger] is_new_entry(m0, m2, k) implies has_generic(s0, *t, k, b) by {
                                assert(has_generic(s0, u, k, s0.rank[v as int]));
                            }
                            assert forall|k: u64| #[trigger] has_generic(s0, *t, k, b) && !hydrator.spec_is_rigid(k)
                                implies m2.contains_key(k) by {
                                assert(has_generic(s0, u, k, s0.rank[v as int]));
                            }
                        }
                        r
                    },
                    TypeVar::Unbound { .. } => {
                        assert forall|k: u64| !(#[trigger] has_generic(s0, *t, k, b)) by {}
                        proof {
                            lemma_step_refl(*self, m0, *hydrator);
                            lemma_no_fresh(m0.dom());
                        }
                        Type::Var { type_: v }
                    },
                    TypeVar::Generic { id } => {
                        assert forall|k: u64| #[trigger] has_generic(s0, *t, k, b) implies k == id by {}
                        let found: Option<Type> = match instantiated_get(ids, id) {
                            Some(x) => Some(copy_type(x)),
                            None => None,
                        };
                        match found {
                            Some(x) => {
                                proof {
                                    lemma_step_refl(*self, m0, *hydrator);
                                    lemma_no_fresh(m0.dom());
                                }
                                x
                            },
                            None => {
                                if !hydrator.is_rigid(id) {
                                    let nv = self.new_unbound_var();
                                    let _ = instantiated_insert(ids, id, copy_type(&nv));
                                    proof {
                                        let m2 = instantiated(*ids);
                                        let n0 = e0.type_vars@.len();
                                        assert(id_after(e0.ids.next_id, 1) == id_after(e0.ids.next_id, 0).wrapping_add(1));
                                        assert(id_after(e0.ids.next_id, 0) == e0.ids.next_id);
                                        assert forall|k: u64| #[trigger] is_new_entry(m0, m2, k) implies k == id by {}
                                        assert(is_new_entry(m0, m2, id));
                                        assert forall|c: int| n0 <= c < n0 + 1 implies #[trigger] cell_of_new_entry(m0, m2, c) by {
                                            assert(is_new_entry(m0, m2, id));
                                        }
                                        assert(fresh_ids(s0, *t, m0.dom(), *hydrator, b) == seq![id]);
                                        assert(seq![id][0] == id);
                                        assert(seq![id].contains(id));
                                        assert forall|x: u64| #[trigger] seq![id].to_set().contains(x) implies x == id by {
                                            let j = choose|j: int| 0 <= j < 1 && seq![id][j] == x;
                                        }
                                        assert(seq![id].to_set() =~= set![id]);
                                        assert(m2.dom() =~= m0.dom() + seq![id].to_set());
                                        assert(seq![id][0] == id);
                                    }
                                    nv
                                } else {
                                    proof {
                                        lemma_step_refl(*self, m0, *hydrator);
                                        lemma_no_fresh(m0.dom());
                                    }
                                    Type::Var { type_: v }
                                }
                            },
                        }
                    },
                }
            },
        }
    }

    fn instantiate_list_below(
        &mut self,
        l: &TypeList,
        ids: &mut im::HashMap<u64, Type>,
        hydrator: &Hydrator,
        Ghost(s0): Ghost<StoreView>,
        Ghost(b): Ghost<nat>,
    ) -> (r: TypeList)
        requires
            old(self).wf(),
            s0.wf(),
            prefix_of(s0, old(self).type_vars@),
            list_below(*l, s0.len(), s0.rank, b),
        ensures
            ({
                let m1 = instantiated(*old(ids));
                let m2 = instantiated(*final(ids));
                &&& r == inst_list(s0, *l, m2, b)
                &&& instantiation_step(*old(self), *final(self), m1, m2, *hydrator)
                &&& forall|k: u64| #[trigger] is_new_entry(m1, m2, k) ==> has_generic_list(s0, *l, k, b)
                &&& forall|k: u64|
                    #[trigger] has_generic_list(s0, *l, k, b) && !hydrator.spec_is_rigid(k) ==> m2.contains_key(k)
            }),
            final(self).type_vars@.len() == old(self).type_vars@.len() + fresh_ids_list(
                s0,
                *l,
                instantiated(*old(ids)).dom(),
                *hydrator,
                b,
            ).len(),
            instantiated(*final(ids)).dom() == instantiated(*old(ids)).dom() + fresh_ids_list(
                s0,
                *l,
                instantiated(*old(ids)).dom(),
                *hydrator,
                b,
            ).to_set(),
            placed_in_order(
                fresh_ids_list(s0, *l, instantiated(*old(ids)).dom(), *hydrator, b),
                instantiated(*final(ids)),
                old(self).type_vars@.len(),
            ),
        decreases b, l,
    {
        let ghost e0 = *self;
        let ghost m0 = instantiated(*ids);
        match l {
            TypeList::Nil => {
                proof {
                    lemma_step_refl(*self, m0, *hydrator);
                    lemma_no_fresh(m0.dom());
                }
                TypeList::Nil
            },
            TypeList::Cons { head, tail } => {
                let head2 = self.instantiate_below(head, ids, hydrator, Ghost(s0), Ghost(b));
                let ghost e1 = *self;
                let ghost m1 = instantiated(*ids);
                proof {
                    lemma_prefix_trans(s0, e0.type_vars@, e1.type_vars@);
                }
                let tail2 = self.instantiate_list_below(tail, ids, hydrator, Ghost(s0), Ghost(b));
                let ghost m2 = instantiated(*ids);
                proof {
                    lemma_step_trans(e0, e1, *self, m0, m1, m2, *hydrator);
                    assert forall|k: u64| #[trigger] has_generic(s0, **head, k, b) implies (m1.contains_key(k)
                        <==> m2.contains_key(k)) && (m1.contains_key(k) ==> m1[k] == m2[k]) by {
                        if m2.contains_key(k) && !m1.contains_key(k) {
                            assert(is_new_entry(m1, m2, k));
                        }
                    }
                    lemma_inst_agree(s0, **head, b, m1, m2);
                    assert forall|k: u64| #[trigger] is_new_entry(m0, m2, k) implies has_generic_list(s0, *l, k, b) by {
                        if m1.contains_key(k) {
                            assert(is_new_entry(m0, m1, k));
                        } else {
                            assert(is_new_entry(m1, m2, k));
                        }
                    }
                    assert forall|k: u64| #[trigger] has_generic_list(s0, *l, k, b) && !hydrator.spec_is_rigid(k) implies m2.contains_key(k) by {
                        if has_generic(s0, **head, k, b) {
                            assert(m1.contains_key(k));
                        } else {
                            assert(has_generic_list(s0, **tail, k, b));
                        }
                    }
                    let a = fresh_ids(s0, **head, m0.dom(), *hydrator, b);
                    let c = fresh_ids_list(s0, **tail, m1.dom(), *hydrator, b);
                    assert(m1.dom() == m0.dom() + a.to_set());
                    assert(fresh_ids_list(s0, *l, m0.dom(), *hydrator, b) == a + c);
                    lemma_fresh_concat(a, c, m0, m1, m2, e0.type_vars@.len());
                }
                TypeList::Cons { head: Box::new(head2), tail: Box::new(tail2) }
            },
        }
    }
}

} // verus!
