use vstd::prelude::*;

verus! {

/// A span of source text, as byte offsets.
#[derive(Clone, Copy, Debug, PartialEq, Eq, Structural)]
pub struct SrcSpan {
    pub start: u32,
    pub end: u32,
}

/// Where a definition can be seen from.
#[derive(Clone, Copy, Debug)]
pub enum Publicity {
    Public,
    Private,
    Internal { attribute_location: Option<SrcSpan> },
}

impl Publicity {
    pub open spec fn spec_is_private(&self) -> bool {
        self is Private
    }

    #[verifier::when_used_as_spec(spec_is_private)]
    pub fn is_private(&self) -> (r: bool)
        ensures
            r == self.spec_is_private(),
    {
        match self {
            Publicity::Private => true,
            _ => false,
        }
    }

    /// Public and internal definitions can be imported by other modules.
    pub open spec fn spec_is_importable(&self) -> bool {
        !(self is Private)
    }

    #[verifier::when_used_as_spec(spec_is_importable)]
    pub fn is_importable(&self) -> (r: bool)
        ensures
            r == self.spec_is_importable(),
    {
        match self {
            Publicity::Private => false,
            _ => true,
        }
    }

    pub fn same_as(&self, other: &Publicity) -> (r: bool)
        ensures
            r == (*self == *other),
    {
        match (self, other) {
            (Publicity::Public, Publicity::Public) => true,
            (Publicity::Private, Publicity::Private) => true,
            (
                Publicity::Internal { attribute_location: a },
                Publicity::Internal { attribute_location: b },
            ) => match (a, b) {
                (None, None) => true,
                (Some(x), Some(y)) => x.start == y.start && x.end == y.end,
                _ => false,
            },
            _ => false,
        }
    }
}

/// A type. Type variables are cells of a [`TypeVarStore`], named by their
/// index there, so that linking a variable is seen by every type that
/// mentions it.
#[derive(Debug)]
pub enum Type {
    Named { publicity: Publicity, package: String, module: String, name: String, args: TypeList },
    Fn { args: TypeList, retrn: Box<Type> },
    Var { type_: usize },
    Tuple { elems: TypeList },
}

/// A list of types, such as the arguments of a named type or a function.
#[derive(Debug)]
pub enum TypeList {
    Nil,
    Cons { head: Box<Type>, tail: Box<TypeList> },
}

/// The contents of a type variable cell.
#[derive(Debug)]
pub enum TypeVar {
    Unbound { id: u64 },
    Link { type_: Type },
    Generic { id: u64 },
}

impl TypeVar {
    pub open spec fn spec_is_unbound(&self) -> bool {
        self is Unbound
    }

    #[verifier::when_used_as_spec(spec_is_unbound)]
    pub fn is_unbound(&self) -> (r: bool)
        ensures
            r == self.spec_is_unbound(),
    {
        match self {
            TypeVar::Unbound { .. } => true,
            _ => false,
        }
    }
}

/// Every variable of `t` names a cell below `n` whose rank is below `b`.
pub open spec fn type_below(t: Type, n: nat, rank: Seq<nat>, b: nat) -> bool
    decreases t,
{
    match t {
        Type::Named { args, .. } => list_below(args, n, rank, b),
        Type::Fn { args, retrn } => list_below(args, n, rank, b) && type_below(*retrn, n, rank, b),
        Type::Var { type_ } => type_ < n && rank[type_ as int] < b,
        Type::Tuple { elems } => list_below(elems, n, rank, b),
    }
}

pub open spec fn list_below(l: TypeList, n: nat, rank: Seq<nat>, b: nat) -> bool
    decreases l,
{
    match l {
        TypeList::Nil => true,
        TypeList::Cons { head, tail } => type_below(*head, n, rank, b) && list_below(
            *tail,
            n,
            rank,
            b,
        ),
    }
}

/// The abstract state of a store of type variables: the cells, and a rank
/// for each cell such that a linked cell only mentions cells of lower rank.
/// The ranks witness that following links always ends.
pub ghost struct StoreView {
    pub cells: Seq<TypeVar>,
    pub rank: Seq<nat>,
    pub bound: nat,
}

impl StoreView {
    pub open spec fn len(self) -> nat {
        self.cells.len()
    }

    pub open spec fn wf(self) -> bool {
        &&& self.rank.len() == self.cells.len()
        &&& self.cells.len() <= usize::MAX
        &&& self.bound > 0
        &&& forall|j: int| 0 <= j < self.cells.len() ==> #[trigger] self.rank[j] < self.bound
        &&& forall|j: int|
            0 <= j < self.cells.len() && (#[trigger] self.cells[j]) is Link ==> type_below(
                self.cells[j]->type_,
                self.cells.len(),
                self.rank,
                self.rank[j],
            )
    }

    /// `t` only mentions cells of this store.
    pub open spec fn holds(self, t: Type) -> bool {
        type_below(t, self.len(), self.rank, self.bound)
    }

    /// No two unbound cells carry the same id.
    pub open spec fn unique_unbound_ids(self) -> bool {
        forall|i: int, j: int|
            0 <= i < self.cells.len() && 0 <= j < self.cells.len() && i != j
                && (#[trigger] self.cells[i]) is Unbound && (#[trigger] self.cells[j]) is Unbound
                ==> self.cells[i]->Unbound_id != self.cells[j]->Unbound_id
    }

    /// `new` is `self` with some unbound cells bound, and possibly more cells.
    pub open spec fn extended_by(self, new: StoreView) -> bool {
        &&& self.cells.len() <= new.cells.len()
        &&& forall|j: int|
            0 <= j < self.cells.len() && !(#[trigger] self.cells[j] is Unbound) ==> new.cells[j]
                == self.cells[j]
    }
}

/// The cells that hold the type variables, with the ranks that show that no
/// variable is linked, directly or not, to a type that mentions it.
pub struct TypeVarStore {
    pub cells: Vec<TypeVar>,
    pub rank: Ghost<Seq<nat>>,
    pub bound: Ghost<nat>,
}

impl View for TypeVarStore {
    type V = StoreView;

    open spec fn view(&self) -> StoreView {
        StoreView { cells: self.cells@, rank: self.rank@, bound: self.bound@ }
    }
}

impl TypeVarStore {
    pub fn new() -> (s: TypeVarStore)
        ensures
            s@.wf(),
            s@.cells == Seq::<TypeVar>::empty(),
    {
        TypeVarStore { cells: Vec::new(), rank: Ghost(Seq::empty()), bound: Ghost(1) }
    }

    pub fn len(&self) -> (n: usize)
        ensures
            n == self@.len(),
    {
        self.cells.len()
    }

    /// Add a fresh cell holding `var`, which must not be a link.
    pub fn push_var(&mut self, var: TypeVar) -> (t: Type)
        requires
            old(self)@.wf(),
            !(var is Link),
        ensures
            final(self)@.wf(),
            final(self)@.cells == old(self)@.cells.push(var),
            final(self)@.bound == old(self)@.bound,
            final(self)@.rank == old(self)@.rank.push(0),
            t == (Type::Var { type_: old(self)@.len() as usize }),
            final(self)@.holds(t),
    {
        let n = self.cells.len();
        self.cells.push(var);
        proof {
            broadcast use vstd::std_specs::vec::axiom_spec_len;
            assert(self.cells@.len() == self.cells.len());
        }
        let ghost old_rank = self.rank@;
        self.rank = Ghost(old_rank.push(0nat));
        proof {
            let s = self@;
            assert forall|j: int| 0 <= j < s.cells.len() && (#[trigger] s.cells[j]) is Link implies type_below(
                s.cells[j]->type_,
                s.cells.len(),
                s.rank,
                s.rank[j],
            ) by {
                lemma_type_below_grow(s.cells[j]->type_, (s.cells.len() - 1) as nat, old_rank, s.rank, old_rank[j]);
            }
        }
        Type::Var { type_: n }
    }

    /// The contents of cell `i`.
    pub fn get(&self, i: usize) -> (v: &TypeVar)
        requires
            i < self@.len(),
        ensures
            *v == self@.cells[i as int],
    {
        &self.cells[i]
    }
}

/// Adding cells and ranks keeps a type within bounds.
pub proof fn lemma_type_below_grow(t: Type, n: nat, rank: Seq<nat>, rank2: Seq<nat>, b: nat)
    requires
        type_below(t, n, rank, b),
        rank.len() == n,
        rank2.len() >= n,
        forall|j: int| 0 <= j < n ==> rank2[j] == rank[j],
    ensures
        type_below(t, rank2.len(), rank2, b),
    decreases t,
{
    match t {
        Type::Named { args, .. } => lemma_list_below_grow(args, n, rank, rank2, b),
        Type::Fn { args, retrn } => {
            lemma_list_below_grow(args, n, rank, rank2, b);
            lemma_type_below_grow(*retrn, n, rank, rank2, b);
        },
        Type::Var { type_ } => {},
        Type::Tuple { elems } => lemma_list_below_grow(elems, n, rank, rank2, b),
    }
}

pub proof fn lemma_list_below_grow(l: TypeList, n: nat, rank: Seq<nat>, rank2: Seq<nat>, b: nat)
    requires
        list_below(l, n, rank, b),
        rank.len() == n,
        rank2.len() >= n,
        forall|j: int| 0 <= j < n ==> rank2[j] == rank[j],
    ensures
        list_below(l, rank2.len(), rank2, b),
    decreases l,
{
    match l {
        TypeList::Nil => {},
        TypeList::Cons { head, tail } => {
            lemma_type_below_grow(*head, n, rank, rank2, b);
            lemma_list_below_grow(*tail, n, rank, rank2, b);
        },
    }
}

impl Clone for Type {
    fn clone(&self) -> (r: Self)
        ensures
            r == *self,
    {
        copy_type(self)
    }
}

impl Clone for TypeVar {
    fn clone(&self) -> (r: Self)
        ensures
            r == *self,
    {
        copy_var(self)
    }
}

impl Clone for TypeList {
    fn clone(&self) -> (r: Self)
        ensures
            r == *self,
    {
        copy_list(self)
    }
}

/// A copy of `t`, equal to it.
pub fn copy_type(t: &Type) -> (r: Type)
    ensures
        r == *t,
    decreases t,
{
    match t {
        Type::Named { publicity, package, module, name, args } => Type::Named {
            publicity: *publicity,
            package: package.clone(),
            module: module.clone(),
            name: name.clone(),
            args: copy_list(args),
        },
        Type::Fn { args, retrn } => Type::Fn {
            args: copy_list(args),
            retrn: Box::new(copy_type(retrn)),
        },
        Type::Var { type_ } => Type::Var { type_: *type_ },
        Type::Tuple { elems } => Type::Tuple { elems: copy_list(elems) },
    }
}

/// A copy of the cell contents `v`, equal to it.
pub fn copy_var(v: &TypeVar) -> (r: TypeVar)
    ensures
        r == *v,
{
    match v {
        TypeVar::Unbound { id } => TypeVar::Unbound { id: *id },
        TypeVar::Link { type_ } => TypeVar::Link { type_: copy_type(type_) },
        TypeVar::Generic { id } => TypeVar::Generic { id: *id },
    }
}

pub fn copy_list(l: &TypeList) -> (r: TypeList)
    ensures
        r == *l,
    decreases l,
{
    match l {
        TypeList::Nil => TypeList::Nil,
        TypeList::Cons { head, tail } => TypeList::Cons {
            head: Box::new(copy_type(head)),
            tail: Box::new(copy_list(tail)),
        },
    }
}


/// The module and name of the named type that `t` is, read through links.
pub open spec fn named_type_name_of(s: StoreView, t: Type, b: nat) -> Option<(Seq<char>, Seq<char>)>
    decreases b,
{
    match t {
        Type::Named { module, name, .. } => Some((module@, name@)),
        Type::Var { type_: v } => if v < s.len() && s.cells[v as int] is Link && s.rank[v as int] < b {
            named_type_name_of(s, s.cells[v as int]->type_, s.rank[v as int])
        } else {
            None
        },
        _ => None,
    }
}

fn named_type_name_below(t: &Type, store: &TypeVarStore, Ghost(b): Ghost<nat>) -> (r: Option<(String, String)>)
    requires
        store@.wf(),
        t is Var && t->type_ < store@.len() ==> store@.rank[t->type_ as int] < b,
    ensures
        match r {
            Some((m, n)) => named_type_name_of(store@, *t, b) == Some((m@, n@)),
            None => named_type_name_of(store@, *t, b) is None,
        },
    decreases b,
{
    match t {
        Type::Named { module, name, .. } => Some((module.clone(), name.clone())),
        Type::Var { type_: v } => if *v < store.len() {
            match store.get(*v) {
                TypeVar::Link { type_: u } => named_type_name_below(u, store, Ghost(store@.rank[*v as int])),
                _ => None,
            }
        } else {
            None
        },
        _ => None,
    }
}

/// The module and name of the named type that `t` is, read through links,
/// if it is one.
pub fn named_type_name(t: &Type, store: &TypeVarStore) -> (r: Option<(String, String)>)
    requires
        store@.wf(),
    ensures
        match r {
            Some((m, n)) => named_type_name_of(store@, *t, store@.bound) == Some((m@, n@)),
            None => named_type_name_of(store@, *t, store@.bound) is None,
        },
{
    named_type_name_below(t, store, Ghost(store@.bound))
}

} // verus!
