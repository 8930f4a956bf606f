//! The environment in which a module is type checked: what is in scope,
//! what the module defines and imports, and which definitions are used.

use vstd::prelude::*;
use std::collections::HashMap;
use crate::types::{named_type_name, named_type_name_of, SrcSpan, Publicity, Type, TypeVar, TypeVarStore};
use crate::module::{
    AccessorsMap, Deprecation, Duplicate, ModuleInterface, TypeConstructor,
    TypeVariantConstructors, ValueConstructor, ValueConstructorVariant,
};
use crate::name_map::{lists, NameMap};
use crate::problems::{
    last_component, last_name_component, Error, ModuleSuggestion, Problems, UnknownTypeConstructorError,
    UnknownTypeHint, UnknownValueConstructorError,
};
use crate::suggestions::{insert_sorted, kind_of, rank_of, ranks, strictly_sorted, Rank};
use crate::edit_distance::{distance, edit_distance};
use crate::persistent::{
    enumerates, module_get, module_names, module_table, scope_clone, scope_contains_key, scope_entries,
    scope_get, scope_insert, scope_keys, scope_new, ModuleTable, Scope,
};

verus! {

broadcast use vstd::std_specs::hash::group_hash_axioms;

/// The name of the module whose definitions are in scope everywhere.
pub const PRELUDE_MODULE_NAME: &'static str = "gleam";

/// The name given to the value being piped into a function.
pub const PIPE_VARIABLE: &'static str = "_pipe";

/// The platform that code is compiled for.
#[derive(Clone, Copy, Debug)]
pub enum Target {
    Erlang,
    JavaScript,
}

/// Whether every function and constant must support the current target.
#[derive(Clone, Copy, Debug)]
pub enum TargetSupport {
    Enforced,
    NotEnforced,
}

/// The `k`th id handed out by a generator whose next id was `start`.
pub open spec fn id_after(start: u64, k: nat) -> u64
    decreases k,
{
    if k == 0 {
        start
    } else {
        id_after(start, (k - 1) as nat).wrapping_add(1)
    }
}

/// The `k`th id handed out by a generator is its first id plus `k`,
/// wrapped around at 2^64.
pub proof fn lemma_id_after_value(start: u64, k: nat)
    ensures
        id_after(start, k) as int == (start + k) % 0x1_0000_0000_0000_0000int,
    decreases k,
{
    let m: int = 0x1_0000_0000_0000_0000int;
    if k == 0 {
        vstd::arithmetic::div_mod::lemma_small_mod(start as nat, m as nat);
    } else {
        lemma_id_after_value(start, (k - 1) as nat);
        let x = id_after(start, (k - 1) as nat);
        vstd::arithmetic::div_mod::lemma_add_mod_noop(start + k - 1, 1, m);
        vstd::arithmetic::div_mod::lemma_small_mod(1, m as nat);
        if x + 1 < m {
            vstd::arithmetic::div_mod::lemma_small_mod((x + 1) as nat, m as nat);
        } else {
            vstd::arithmetic::div_mod::lemma_mod_self_0(m);
        }
    }
}

/// A generator hands out no id twice before it wraps around: the ids it
/// hands out `i`th and `j`th differ when `i` and `j` are distinct and below
/// 2^64.
pub proof fn lemma_ids_distinct(start: u64, i: nat, j: nat)
    requires
        i < j < 0x1_0000_0000_0000_0000int,
    ensures
        id_after(start, i) != id_after(start, j),
{
    let m: int = 0x1_0000_0000_0000_0000int;
    lemma_id_after_value(start, i);
    lemma_id_after_value(start, j);
    vstd::arithmetic::div_mod::lemma_mod_equivalence(start + j, start + i, m);
    vstd::arithmetic::div_mod::lemma_small_mod((j - i) as nat, m as nat);
    assert((start + j) - (start + i) == j - i);
}

/// Hands out ids, one after another.
#[derive(Debug)]
pub struct UniqueIdGenerator {
    pub next_id: u64,
}

impl UniqueIdGenerator {
    pub fn new() -> (g: UniqueIdGenerator)
        ensures
            g.next_id == 0,
    {
        UniqueIdGenerator { next_id: 0 }
    }

    /// The next id.
    pub fn next(&mut self) -> (id: u64)
        ensures
            id == old(self).next_id,
            final(self).next_id == old(self).next_id.wrapping_add(1),
    {
        let id = self.next_id;
        self.next_id = self.next_id.wrapping_add(1);
        id
    }
}

/// The names under which the constructors of other modules are in scope,
/// used when printing patterns.
#[derive(Debug)]
pub struct ValueNames {
    pub constructors: Vec<(String, String, String)>,
}

impl ValueNames {
    pub fn new() -> (r: ValueNames)
        ensures
            r.constructors@ == Seq::<(String, String, String)>::empty(),
    {
        ValueNames { constructors: Vec::new() }
    }

    /// Record that the constructor `name` of `module` is in scope as `alias`.
    pub fn named_constructor_in_scope(&mut self, module: String, name: String, alias: String)
        ensures
            final(self).constructors@ == old(self).constructors@.push((module, name, alias)),
    {
        self.constructors.push((module, name, alias));
    }
}

/// A module imported under an alias that has not been used.
#[derive(Debug)]
pub struct UnusedModuleAlias {
    pub location: SrcSpan,
    pub module_name: String,
}

/// The scope as it was when a new one was opened.
#[derive(Debug)]
pub struct ScopeResetData {
    local_values: Scope,
}

impl ScopeResetData {
    /// The values that were in scope.
    pub closed spec fn saved(&self) -> Map<Seq<char>, (u64, ValueConstructor)> {
        scope_entries(self.local_values)
    }
}

/// A value of a module's usage graph: what the name stands for, the name,
/// and the places where it was used.
pub type ValueUsage = (ValueConstructor, String, Vec<SrcSpan>);

/// A type of a module's usage graph: what the name stands for, the name,
/// and the places where it was used.
pub type TypeUsage = (TypeConstructor, String, Vec<SrcSpan>);

/// The environment in which a module is type checked.
pub struct Environment<'a> {
    pub current_package: String,
    pub current_module: String,
    pub target: Target,
    pub ids: UniqueIdGenerator,
    pub previous_id: u64,
    /// Names of types or values that have been imported in an unqualified
    /// fashion from other modules. Used to prevent multiple imports using
    /// the same name.
    pub unqualified_imported_names: NameMap<SrcSpan>,
    pub unqualified_imported_types: NameMap<SrcSpan>,
    pub importable_modules: &'a ModuleTable,
    /// Modules that have been imported by the current module, along with
    /// the location of the import statement where they were imported.
    pub imported_modules: NameMap<(SrcSpan, &'a ModuleInterface)>,
    pub unused_modules: NameMap<SrcSpan>,
    /// Names of modules that have been imported with an alias.
    pub imported_module_aliases: NameMap<SrcSpan>,
    pub unused_module_aliases: NameMap<UnusedModuleAlias>,
    /// Values defined in the current function (or the prelude).
    pub scope: Scope,
    pub value_usage_graph: HashMap<u64, ValueUsage>,
    /// Types defined in the current module (or the prelude).
    pub module_types: NameMap<(u64, TypeConstructor)>,
    pub type_usage_graph: HashMap<u64, TypeUsage>,
    /// Mapping from types to constructor names in the current module (or
    /// the prelude).
    pub module_types_constructors: NameMap<TypeVariantConstructors>,
    /// Values defined in the current module (or the prelude).
    pub module_values: NameMap<ValueConstructor>,
    /// Accessors defined in the current module.
    pub accessors: NameMap<AccessorsMap>,
    /// Used to determine if all functions and constants need to support the
    /// current compilation target.
    pub target_support: TargetSupport,
    pub value_names: ValueNames,
    /// The cells of the type variables of the types of this module.
    pub type_vars: TypeVarStore,
}

/// The entries of the module types made from the prelude's types, with the
/// ids handed out after `start`.
pub open spec fn numbered<V>(p: Seq<(Seq<char>, V)>, start: u64, offset: nat) -> Seq<(Seq<char>, (u64, V))> {
    Seq::new(p.len(), |j: int| (p[j].0, (id_after(start, offset + j as nat), p[j].1)))
}

impl<'a> Environment<'a> {
    /// The environment is well formed: its type variables are.
    pub open spec fn wf(&self) -> bool {
        self.type_vars@.wf()
    }

    /// The ids of the unbound variables are fresh: no two unbound cells
    /// carry the same id, and each carries an id that the generator has
    /// already handed out, so that the ids it hands out next are new. The
    /// generator's counter wraps around, after which this can no longer be
    /// kept; so it is not part of `wf`, and each function that hands out
    /// ids keeps it as long as the counter does not wrap.
    pub open spec fn ids_fresh(&self) -> bool {
        &&& self.type_vars@.unique_unbound_ids()
        &&& forall|j: int|
            0 <= j < self.type_vars@.len() && (#[trigger] self.type_vars@.cells[j]) is Unbound
                ==> self.type_vars@.cells[j]->Unbound_id < self.ids.next_id
    }

    /// The values in scope.
    pub open spec fn scope_view(&self) -> Map<Seq<char>, (u64, ValueConstructor)> {
        scope_entries(self.scope)
    }

    /// The last id handed out by `next_uid`.
    pub closed spec fn spec_previous_uid(&self) -> u64 {
        self.previous_id
    }

    /// The prelude: the module whose definitions are in scope everywhere.
    pub open spec fn prelude_of(importable_modules: ModuleTable) -> ModuleInterface {
        module_table(importable_modules)[PRELUDE_MODULE_NAME@]
    }

    /// `env` is the environment that `new` starts from these arguments.
    pub open spec fn started(
        env: Self,
        ids: UniqueIdGenerator,
        current_package: String,
        current_module: String,
        target: Target,
        importable_modules: &'a ModuleTable,
        target_support: TargetSupport,
        type_vars: TypeVarStore,
    ) -> bool {
        &&& env.wf()
        &&& ({
                let prelude = Self::prelude_of(*importable_modules);
                let start = ids.next_id;
                let nt = prelude.types.pairs().len();
                let nv = prelude.values.pairs().len();
                &&& env.current_package@ == current_package@
                &&& env.current_module@ == current_module@
                &&& env.target == target
                &&& env.target_support == target_support
                &&& env.importable_modules == importable_modules
                &&& env.type_vars == type_vars
                &&& env.spec_previous_uid() == start
                &&& env.ids.next_id == id_after(start, 1 + nt + nv)
                &&& env.module_types.pairs() == numbered(prelude.types.pairs(), start, 1)
                &&& lists(numbered(prelude.values.pairs(), start, (1 + nt) as nat), env.scope_view())
                &&& env.module_types_constructors@ == prelude.types_value_constructors@
                &&& env.accessors@ == prelude.accessors@
                &&& env.module_values@ == Map::<Seq<char>, ValueConstructor>::empty()
                &&& env.imported_modules@.is_empty()
                &&& env.unused_modules@.is_empty()
                &&& env.unqualified_imported_names@.is_empty()
                &&& env.unqualified_imported_types@.is_empty()
                &&& env.imported_module_aliases@.is_empty()
                &&& env.unused_module_aliases@.is_empty()
                &&& env.value_usage_graph@.is_empty()
                &&& env.type_usage_graph@.is_empty()
                &&& env.value_names.constructors@.len() == nv
                &&& forall|i: int|
                    0 <= i < nv ==> {
                        let c = #[trigger] env.value_names.constructors@[i];
                        &&& c.0@ == PRELUDE_MODULE_NAME@
                        &&& c.1@ == prelude.values.pairs()[i].0
                        &&& c.2@ == prelude.values.pairs()[i].0
                    }
            })
    }

    /// Start the environment of `current_module`, if the importable modules
    /// include the prelude; `None` if they do not.
    pub fn new_checked(
        ids: UniqueIdGenerator,
        current_package: String,
        current_module: String,
        target: Target,
        importable_modules: &'a ModuleTable,
        target_support: TargetSupport,
        type_vars: TypeVarStore,
    ) -> (r: Option<Self>)
        requires
            type_vars@.wf(),
        ensures
            r is Some <==> module_table(*importable_modules).contains_key(PRELUDE_MODULE_NAME@),
            r matches Some(env) ==> Self::started(
                env,
                ids,
                current_package,
                current_module,
                target,
                importable_modules,
                target_support,
                type_vars,
            ),
    {
        match module_get(importable_modules, PRELUDE_MODULE_NAME) {
            Some(_) => Some(
                Self::new(ids, current_package, current_module, target, importable_modules, target_support, type_vars),
            ),
            None => None,
        }
    }

    /// Start the environment of `current_module`, with the prelude's types
    /// and values in scope. Each prelude type, then each prelude value, gets
    /// a fresh id, after the one recorded as the previous id.
    pub fn new(
        ids: UniqueIdGenerator,
        current_package: String,
        current_module: String,
        target: Target,
        importable_modules: &'a ModuleTable,
        target_support: TargetSupport,
        type_vars: TypeVarStore,
    ) -> (env: Self)
        requires
            module_table(*importable_modules).contains_key(PRELUDE_MODULE_NAME@),
            type_vars@.wf(),
        ensures
            Self::started(env, ids, current_package, current_module, target, importable_modules, target_support, type_vars),
    {
        let prelude = module_get(importable_modules, PRELUDE_MODULE_NAME).expect(
            "Unable to find prelude in importable modules",
        );
        let mut ids = ids;
        let ghost start = ids.next_id;

        let nv = prelude.values.len();
        let mut value_names = ValueNames::new();
        let mut i: usize = 0;
        while i < nv
            invariant
                nv == prelude.values.pairs().len(),
                i <= nv,
                value_names.constructors@.len() == i,
                forall|j: int|
                    0 <= j < i ==> {
                        let c = #[trigger] value_names.constructors@[j];
                        &&& c.0@ == PRELUDE_MODULE_NAME@
                        &&& c.1@ == prelude.values.pairs()[j].0
                        &&& c.2@ == prelude.values.pairs()[j].0
                    },
            decreases nv - i,
        {
            let name = prelude.values.key_at(i);
            value_names.named_constructor_in_scope(
                String::from_str(PRELUDE_MODULE_NAME),
                name.clone(),
                name.clone(),
            );
            i = i + 1;
        }

        let current_package = current_package.clone();
        let previous_id = ids.next();

        let nt = prelude.types.len();
        assert(id_after(start, 1) == id_after(start, 0).wrapping_add(1));
        let mut module_types: NameMap<(u64, TypeConstructor)> = NameMap::new();
        let mut i: usize = 0;
        while i < nt
            invariant
                nt == prelude.types.pairs().len(),
                lists(prelude.types.pairs(), prelude.types@),
                i <= nt,
                ids.next_id == id_after(start, (1 + i) as nat),
                module_types.pairs() == numbered(prelude.types.pairs(), start, 1).subrange(0, i as int),
            decreases nt - i,
        {
            let _ = module_types.len();
            let ghost before = module_types.pairs();
            let name = prelude.types.key_at(i).clone();
            proof {
                assert(!module_types@.contains_key(name@)) by {
                    if module_types@.contains_key(name@) {
                        let j = choose|j: int| 0 <= j < before.len() && (#[trigger] before[j]).0 == name@;
                        assert(prelude.types.pairs()[j].0 == before[j].0);
                    }
                }
            }
            let id = ids.next();
            let _ = module_types.insert(name, (id, prelude.types.value_at(i).duplicate()));
            assert(module_types.pairs() =~= numbered(prelude.types.pairs(), start, 1).subrange(0, i + 1));
            i = i + 1;
        }
        assert(module_types.pairs() =~= numbered(prelude.types.pairs(), start, 1));

        let mut scope = scope_new();
        let mut i: usize = 0;
        while i < nv
            invariant
                nv == prelude.values.pairs().len(),
                lists(prelude.values.pairs(), prelude.values@),
                i <= nv,
                ids.next_id == id_after(start, (1 + nt + i) as nat),
                lists(numbered(prelude.values.pairs(), start, (1 + nt) as nat).subrange(0, i as int), scope_entries(scope)),
                scope_entries(scope).dom().finite(),
            decreases nv - i,
        {
            let _ = prelude.values.len();
            let name = prelude.values.key_at(i).clone();
            let id = ids.next();
            let ghost before = scope_entries(scope);
            let ghost p = numbered(prelude.values.pairs(), start, (1 + nt) as nat);
            let _ = scope_insert(&mut scope, name, (id, prelude.values.value_at(i).duplicate()));
            proof {
                let q = p.subrange(0, i + 1);
                assert(q.drop_last() =~= p.subrange(0, i as int));
                assert(!before.contains_key(p[i as int].0)) by {
                    if before.contains_key(p[i as int].0) {
                        let j = choose|j: int| 0 <= j < i && (#[trigger] p.subrange(0, i as int)[j]).0 == p[i as int].0;
                        assert(prelude.values.pairs()[j].0 == p[j].0);
                    }
                }
                assert(crate::name_map::distinct_names(q)) by {
                    assert forall|a: int, b: int| 0 <= a < q.len() && 0 <= b < q.len() && a != b implies (#[trigger] q[a]).0 != (#[trigger] q[b]).0 by {
                        assert(q[a].0 == prelude.values.pairs()[a].0);
                        assert(q[b].0 == prelude.values.pairs()[b].0);
                    }
                }
                let m = scope_entries(scope);
                assert forall|k: Seq<char>| #[trigger] m.contains_key(k) implies exists|j: int| 0 <= j < q.len() && (#[trigger] q[j]).0 == k by {
                    if k != p[i as int].0 {
                        let j = choose|j: int| 0 <= j < i && (#[trigger] p.subrange(0, i as int)[j]).0 == k;
                        assert(q[j] == p.subrange(0, i as int)[j]);
                    } else {
                        assert(q[i as int].0 == k);
                    }
                }
                assert forall|j: int| 0 <= j < q.len() implies m.contains_key((#[trigger] q[j]).0) && m[q[j].0] == q[j].1 by {
                    if j < i {
                        assert(q[j] == p.subrange(0, i as int)[j]);
                    }
                }
                assert(m.dom() =~= before.dom().insert(p[i as int].0));
            }
            i = i + 1;
        }
        assert(numbered(prelude.values.pairs(), start, (1 + nt) as nat).subrange(0, nv as int) =~= numbered(prelude.values.pairs(), start, (1 + nt) as nat));

        Environment {
            current_package,
            previous_id,
            target,
            module_types,
            type_usage_graph: HashMap::new(),
            module_types_constructors: prelude.types_value_constructors.duplicate_map(),
            module_values: NameMap::new(),
            imported_modules: NameMap::new(),
            unused_modules: NameMap::new(),
            unqualified_imported_names: NameMap::new(),
            unqualified_imported_types: NameMap::new(),
            accessors: prelude.accessors.duplicate_map(),
            scope,
            value_usage_graph: HashMap::new(),
            ids,
            importable_modules,
            imported_module_aliases: NameMap::new(),
            unused_module_aliases: NameMap::new(),
            current_module,
            target_support,
            value_names,
            type_vars,
        }
    }
}


/// `new` is `old` with the location `loc` added to the usages of `id`, if
/// `id` is in the graph.
pub open spec fn usage_added<C>(old: Map<u64, (C, String, Vec<SrcSpan>)>, new: Map<u64, (C, String, Vec<SrcSpan>)>, id: u64, loc: SrcSpan) -> bool {
    if old.contains_key(id) {
        &&& new.dom() == old.dom()
        &&& forall|k: u64| k != id && #[trigger] old.contains_key(k) ==> new[k] == old[k]
        &&& new[id].0 == old[id].0
        &&& new[id].1 == old[id].1
        &&& new[id].2@ == old[id].2@.push(loc)
    } else {
        new == old
    }
}

/// Record a use, at `loc`, of the definition `id`, if the graph tracks it.
fn record_usage<C>(graph: &mut HashMap<u64, (C, String, Vec<SrcSpan>)>, id: u64, loc: SrcSpan)
    ensures
        usage_added(old(graph)@, final(graph)@, id, loc),
{
    match graph.remove(&id) {
        Some(entry) => {
            let (c, name, mut usages) = entry;
            usages.push(loc);
            let _ = graph.insert(id, (c, name, usages));
            proof {
                assert(final(graph)@.dom() =~= old(graph)@.dom());
            }
        },
        None => {
            proof {
                assert(graph@ =~= old(graph)@);
            }
        },
    }
}

/// `new` is `old` with a fresh, unused entry for `id`.
pub open spec fn usage_inserted<C>(old: Map<u64, (C, String, Vec<SrcSpan>)>, new: Map<u64, (C, String, Vec<SrcSpan>)>, id: u64, c: C, name: Seq<char>) -> bool {
    &&& new.dom() == old.dom().insert(id)
    &&& forall|k: u64| k != id && #[trigger] old.contains_key(k) ==> new[k] == old[k]
    &&& new[id].0 == c
    &&& new[id].1@ == name
    &&& new[id].2@ == Seq::<SrcSpan>::empty()
}

/// What inserting the variable `name`, standing for `val`, did, from `e1`
/// to `e2`: the definition got a fresh id, under which the scope now maps
/// `name` to it, and which, unless `name` is the pipe variable, starts an
/// entry of the usage graph with no usage yet.
pub open spec fn variable_inserted(e1: Environment, e2: Environment, name: Seq<char>, val: ValueConstructor) -> bool {
    let id = e1.ids.next_id;
    &&& e2.ids.next_id == id.wrapping_add(1)
    &&& e2.scope_view() == e1.scope_view().insert(name, (id, val))
    &&& if name != PIPE_VARIABLE@ {
        usage_inserted(e1.value_usage_graph@, e2.value_usage_graph@, id, val, name)
    } else {
        e2.value_usage_graph@ == e1.value_usage_graph@
    }
    &&& e2 == (Environment { ids: e2.ids, value_usage_graph: e2.value_usage_graph, scope: e2.scope, ..e1 })
}

/// What looking up the variable `name` at `location` did, from `e1` to
/// `e2`, finding `found`: the definition that the scope has for `name`, if
/// any, with a use at `location` recorded for it.
pub open spec fn variable_looked_up(
    e1: Environment,
    e2: Environment,
    name: Seq<char>,
    location: SrcSpan,
    found: Option<ValueConstructor>,
) -> bool {
    &&& if e1.scope_view().contains_key(name) {
        &&& found == Some(e1.scope_view()[name].1)
        &&& usage_added(e1.value_usage_graph@, e2.value_usage_graph@, e1.scope_view()[name].0, location)
    } else {
        &&& found is None
        &&& e2.value_usage_graph@ == e1.value_usage_graph@
    }
    &&& e2 == (Environment { value_usage_graph: e2.value_usage_graph, ..e1 })
}

/// Looking a variable up right after inserting it finds the definition
/// inserted and records a use of it, so that it is not reported as unused;
/// every other name is found as before the insertion.
pub proof fn lemma_lookup_after_insert(
    e0: Environment,
    e1: Environment,
    e2: Environment,
    name: Seq<char>,
    val: ValueConstructor,
    location: SrcSpan,
    found: Option<ValueConstructor>,
    other: Seq<char>,
)
    requires
        variable_inserted(e0, e1, name, val),
        variable_looked_up(e1, e2, name, location, found),
    ensures
        found == Some(val),
        name != PIPE_VARIABLE@ ==> e2.value_usage_graph@.contains_key(e0.ids.next_id)
            && e2.value_usage_graph@[e0.ids.next_id].2@ == seq![location],
        other != name ==> e1.scope_view().contains_key(other) == e0.scope_view().contains_key(other),
        other != name && e0.scope_view().contains_key(other) ==> e1.scope_view()[other] == e0.scope_view()[other],
{
}

/// Unifying types in the environment's store keeps its ids fresh: it only
/// binds unbound variables, and hands out no id.
pub proof fn lemma_unify_keeps_fresh(e1: Environment, e2: Environment)
    requires
        e1.ids_fresh(),
        crate::unify::unify_keeps(e1.type_vars@, e2.type_vars@),
        e2.ids == e1.ids,
    ensures
        e2.ids_fresh(),
{
    let s1 = e1.type_vars@;
    let s2 = e2.type_vars@;
    assert forall|j: int| 0 <= j < s2.len() && (#[trigger] s2.cells[j]) is Unbound implies s2.cells[j]->Unbound_id
        < e2.ids.next_id by {
        assert(s1.cells[j] is Unbound);
    }
    assert forall|i: int, j: int|
        0 <= i < s2.cells.len() && 0 <= j < s2.cells.len() && i != j && (#[trigger] s2.cells[i]) is Unbound
            && (#[trigger] s2.cells[j]) is Unbound implies s2.cells[i]->Unbound_id != s2.cells[j]->Unbound_id by {
        assert(s1.cells[i] is Unbound && s1.cells[j] is Unbound);
    }
}

/// Whether `module` is the prelude.
pub fn is_prelude_module(module: &String) -> (r: bool)
    ensures
        r == (module@ == PRELUDE_MODULE_NAME@),
{
    crate::name_map::str_eq(module.as_str(), PRELUDE_MODULE_NAME)
}

impl<'a> Environment<'a> {
    /// Save the scope, to be restored by `close_scope`.
    pub fn open_new_scope(&mut self) -> (data: ScopeResetData)
        ensures
            data.saved() == old(self).scope_view(),
            *final(self) == *old(self),
    {
        let local_values = scope_clone(&self.scope);
        ScopeResetData { local_values }
    }

    /// Restore the scope saved by `open_new_scope`.
    pub fn close_scope(&mut self, data: ScopeResetData)
        ensures
            final(self).scope_view() == data.saved(),
            *final(self) == (Environment { scope: final(self).scope, ..*old(self) }),
    {
        self.scope = data.local_values;
    }

    /// A fresh id, recorded as the previous one.
    pub fn next_uid(&mut self) -> (id: u64)
        ensures
            id == old(self).ids.next_id,
            final(self).ids.next_id == old(self).ids.next_id.wrapping_add(1),
            final(self).spec_previous_uid() == id,
            *final(self) == (Environment { ids: final(self).ids, previous_id: id, ..*old(self) }),
    {
        let id = self.ids.next();
        self.previous_id = id;
        id
    }

    /// The id last handed out by `next_uid`.
    pub fn previous_uid(&self) -> (id: u64)
        ensures
            id == self.spec_previous_uid(),
    {
        self.previous_id
    }

    /// Create a new unbound type that is a specific type, we just don't
    /// know which one yet.
    pub fn new_unbound_var(&mut self) -> (t: Type)
        requires
            old(self).wf(),
        ensures
            final(self).wf(),
            t == (Type::Var { type_: old(self).type_vars@.len() as usize }),
            final(self).type_vars@.cells == old(self).type_vars@.cells.push(TypeVar::Unbound { id: old(self).ids.next_id }),
            final(self).type_vars@.bound == old(self).type_vars@.bound,
            final(self).type_vars@.rank == old(self).type_vars@.rank.push(0),
            final(self).type_vars@.holds(t),
            old(self).ids_fresh() && old(self).ids.next_id < u64::MAX ==> final(self).ids_fresh(),
            final(self).ids.next_id == old(self).ids.next_id.wrapping_add(1),
            final(self).spec_previous_uid() == old(self).ids.next_id,
            *final(self) == (Environment {
                ids: final(self).ids,
                previous_id: final(self).previous_id,
                type_vars: final(self).type_vars,
                ..*old(self)
            }),
    {
        let id = self.next_uid();
        self.type_vars.push_var(TypeVar::Unbound { id })
    }

    /// Create a new generic type that can stand in for any type.
    pub fn new_generic_var(&mut self) -> (t: Type)
        requires
            old(self).wf(),
        ensures
            final(self).wf(),
            t == (Type::Var { type_: old(self).type_vars@.len() as usize }),
            final(self).type_vars@.cells == old(self).type_vars@.cells.push(TypeVar::Generic { id: old(self).ids.next_id }),
            final(self).type_vars@.bound == old(self).type_vars@.bound,
            final(self).type_vars@.rank == old(self).type_vars@.rank.push(0),
            final(self).type_vars@.holds(t),
            old(self).ids_fresh() && old(self).ids.next_id < u64::MAX ==> final(self).ids_fresh(),
            final(self).ids.next_id == old(self).ids.next_id.wrapping_add(1),
            final(self).spec_previous_uid() == old(self).ids.next_id,
            *final(self) == (Environment {
                ids: final(self).ids,
                previous_id: final(self).previous_id,
                type_vars: final(self).type_vars,
                ..*old(self)
            }),
    {
        let id = self.next_uid();
        self.type_vars.push_var(TypeVar::Generic { id })
    }

    /// Insert a variable in the current scope. Its definition gets a fresh
    /// id, which, unless the name is the pipe variable, starts an entry of
    /// the usage graph with no usage yet.
    pub fn insert_local_variable(&mut self, name: String, location: SrcSpan, type_: Type)
        ensures
            variable_inserted(
                *old(self),
                *final(self),
                name@,
                ValueConstructor {
                    deprecation: Deprecation::NotDeprecated,
                    publicity: Publicity::Private,
                    variant: ValueConstructorVariant::LocalVariable { location },
                    type_,
                },
            ),
    {
        let id = self.ids.next();
        let val = ValueConstructor {
            deprecation: Deprecation::NotDeprecated,
            publicity: Publicity::Private,
            variant: ValueConstructorVariant::LocalVariable { location },
            type_,
        };
        if !crate::name_map::str_eq(name.as_str(), PIPE_VARIABLE) {
            let _ = self.value_usage_graph.insert(id, (val.duplicate(), name.clone(), Vec::new()));
        }
        let _ = scope_insert(&mut self.scope, name, (id, val));
    }

    /// Insert a variable in the current scope. Its definition gets a fresh
    /// id, which, unless the name is the pipe variable, starts an entry of
    /// the usage graph with no usage yet.
    pub fn insert_variable(
        &mut self,
        name: String,
        variant: ValueConstructorVariant,
        type_: Type,
        publicity: Publicity,
        deprecation: Deprecation,
    )
        ensures
            variable_inserted(*old(self), *final(self), name@, ValueConstructor { deprecation, publicity, variant, type_ }),
    {
        let id = self.ids.next();
        let val = ValueConstructor { deprecation, publicity, variant, type_ };
        if !crate::name_map::str_eq(name.as_str(), PIPE_VARIABLE) {
            let _ = self.value_usage_graph.insert(id, (val.duplicate(), name.clone(), Vec::new()));
        }
        let _ = scope_insert(&mut self.scope, name, (id, val));
    }

    /// Insert (or overwrite) a value of the current module.
    pub fn insert_module_value(&mut self, name: String, value: ValueConstructor)
        ensures
            final(self).module_values@ == old(self).module_values@.insert(name@, value),
            *final(self) == (Environment { module_values: final(self).module_values, ..*old(self) }),
    {
        let _ = self.module_values.insert(name, value);
    }

    /// Look up a variable in the current scope, recording the use at
    /// `location` in the usage graph.
    pub fn get_variable(&mut self, name: &String, location: &SrcSpan) -> (r: Option<&ValueConstructor>)
        ensures
            variable_looked_up(
                *old(self),
                *final(self),
                name@,
                *location,
                match r {
                    Some(v) => Some(*v),
                    None => None,
                },
            ),
    {
        let found: Option<u64> = match scope_get(&self.scope, name.as_str()) {
            Some(entry) => Some(entry.0),
            None => None,
        };
        match found {
            None => None,
            Some(id) => {
                record_usage(&mut self.value_usage_graph, id, *location);
                match scope_get(&self.scope, name.as_str()) {
                    Some(entry) => Some(&entry.1),
                    None => None,
                }
            },
        }
    }

    /// Map a type in the current scope. Errors if the module already has a
    /// type with that name, unless the type is from the prelude. The type is
    /// recorded either way, with a fresh id that starts an entry of the
    /// usage graph.
    pub fn insert_type_constructor(&mut self, name_of_type: String, info: TypeConstructor) -> (r: Result<(), Error>)
        ensures
            ({
                let id = old(self).ids.next_id;
                &&& final(self).ids.next_id == id.wrapping_add(1)
                &&& usage_inserted(old(self).type_usage_graph@, final(self).type_usage_graph@, id, info, name_of_type@)
                &&& final(self).module_types@ == old(self).module_types@.insert(name_of_type@, (id, info))
                &&& match r {
                    Ok(()) => !old(self).module_types@.contains_key(name_of_type@)
                        || old(self).module_types@[name_of_type@].1.module@ == PRELUDE_MODULE_NAME@,
                    Err(Error::DuplicateTypeName { name, location, previous_location }) => old(self).module_types@.contains_key(name_of_type@)
                        && old(self).module_types@[name_of_type@].1.module@ != PRELUDE_MODULE_NAME@
                        && name@ == name_of_type@
                        && location == info.origin
                        && previous_location == old(self).module_types@[name_of_type@].1.origin,
                }
            }),
            *final(self) == (Environment {
                ids: final(self).ids,
                type_usage_graph: final(self).type_usage_graph,
                module_types: final(self).module_types,
                ..*old(self)
            }),
    {
        let name = name_of_type.clone();
        let location = info.origin;
        let id = self.ids.next();
        let _ = self.type_usage_graph.insert(id, (info.duplicate(), name.clone(), Vec::new()));
        match self.module_types.insert(name_of_type, (id, info)) {
            None => Ok(()),
            Some((_, previous)) => if is_prelude_module(&previous.module) {
                Ok(())
            } else {
                Err(Error::DuplicateTypeName { name, location, previous_location: previous.origin })
            },
        }
    }

    /// Check that the module has no type named `name`, other than one from
    /// the prelude.
    pub fn assert_unique_type_name(&mut self, name: &String, location: SrcSpan) -> (r: Result<(), Error>)
        ensures
            match r {
                Ok(()) => !old(self).module_types@.contains_key(name@)
                    || old(self).module_types@[name@].1.module@ == PRELUDE_MODULE_NAME@,
                Err(Error::DuplicateTypeName { name: n, location: l, previous_location }) => old(self).module_types@.contains_key(name@)
                    && old(self).module_types@[name@].1.module@ != PRELUDE_MODULE_NAME@
                    && n@ == name@
                    && l == location
                    && previous_location == old(self).module_types@[name@].1.origin,
            },
            *final(self) == *old(self),
    {
        match self.module_types.get(name.as_str()) {
            None => Ok(()),
            Some((_, prelude_type)) => if is_prelude_module(&prelude_type.module) {
                Ok(())
            } else {
                Err(Error::DuplicateTypeName { name: name.clone(), location, previous_location: prelude_type.origin })
            },
        }
    }

    /// Map a type to its constructors in the current scope.
    pub fn insert_type_to_constructors(&mut self, name_of_type: String, constructors: TypeVariantConstructors)
        ensures
            final(self).module_types_constructors@ == old(self).module_types_constructors@.insert(name_of_type@, constructors),
            *final(self) == (Environment { module_types_constructors: final(self).module_types_constructors, ..*old(self) }),
    {
        let _ = self.module_types_constructors.insert(name_of_type, constructors);
    }

    /// Record the accessors of a type of the current module.
    pub fn insert_accessors(&mut self, name_of_type: String, accessors: AccessorsMap)
        ensures
            final(self).accessors@ == old(self).accessors@.insert(name_of_type@, accessors),
            *final(self) == (Environment { accessors: final(self).accessors, ..*old(self) }),
    {
        let _ = self.accessors.insert(name_of_type, accessors);
    }
}


impl<'a> Environment<'a> {
    /// Run `process_scope` on the environment and `problems`, in a new
    /// scope: its result is returned and everything it did is kept, but for
    /// the scope, which is afterwards what it was before.
    pub fn in_new_scope<T, E, F>(&mut self, problems: &mut Problems, process_scope: F) -> (r: Result<T, E>)
        where
            F: FnOnce(&mut Self, &mut Problems) -> Result<T, E>,
        requires
            forall|e: &mut Self, p: &mut Problems| process_scope.requires((e, p)),
        ensures
            final(self).scope_view() == old(self).scope_view(),
            exists|e: &mut Self, p: &mut Problems|
                *e == *old(self) && *p == *old(problems) && process_scope.ensures((e, p), r) && *final(problems)
                    == *final(p) && *final(self) == (Environment { scope: final(self).scope, ..*final(e) }),
    {
        let initial = self.open_new_scope();
        let result = process_scope(self, problems);
        self.close_scope(initial);
        result
    }
}


/// An imported name, for looking up a module which exports it.
#[derive(Debug)]
pub enum Imported {
    /// An imported module, with no extra information.
    Module,
    /// An imported type.
    Type(String),
    /// An imported value.
    Value(String),
}

/// What is being looked for: a module (0), a type (1) or a value (2), and
/// its name.
pub open spec fn import_view(i: Imported) -> (nat, Seq<char>) {
    match i {
        Imported::Module => (0, Seq::empty()),
        Imported::Type(n) => (1, n@),
        Imported::Value(n) => (2, n@),
    }
}

/// How far a suggested module's name may be from the unknown one.
pub open spec fn suggestion_threshold(module: Seq<char>) -> nat {
    if module.len() / 3 >= 1 {
        module.len() / 3
    } else {
        1
    }
}

/// `names` are the keys of `m` but the pipe variable, each once.
pub open spec fn enumerates_but_pipe<V>(names: Seq<String>, m: Map<Seq<char>, V>) -> bool {
    &&& forall|i: int| 0 <= i < names.len() ==> m.contains_key((#[trigger] names[i])@) && names[i]@ != PIPE_VARIABLE@
    &&& forall|i: int, j: int| 0 <= i < names.len() && 0 <= j < names.len() && i != j ==> (#[trigger] names[i])@ != (#[trigger] names[j])@
    &&& forall|k: Seq<char>| #[trigger] m.contains_key(k) && k != PIPE_VARIABLE@ ==> exists|i: int| 0 <= i < names.len() && (#[trigger] names[i])@ == k
}

/// Two lists of the names of `m` but the pipe variable, such as the one
/// that `local_value_names` returns and the one that an unknown-variable
/// error carries, hold the same names, as many of them; only their order
/// may differ.
pub proof fn lemma_name_lists_agree<V>(a: Seq<String>, b: Seq<String>, m: Map<Seq<char>, V>)
    requires
        enumerates_but_pipe(a, m),
        enumerates_but_pipe(b, m),
    ensures
        a.len() == b.len(),
        a.map_values(|s: String| s@).to_set() == b.map_values(|s: String| s@).to_set(),
{
    let va = a.map_values(|s: String| s@);
    let vb = b.map_values(|s: String| s@);
    assert forall|k: Seq<char>| va.to_set().contains(k) <==> vb.to_set().contains(k) by {
        if va.to_set().contains(k) {
            let i = choose|i: int| 0 <= i < va.len() && va[i] == k;
            assert(a[i]@ == k);
            let j = choose|j: int| 0 <= j < b.len() && (#[trigger] b[j])@ == k;
            assert(vb[j] == k);
        }
        if vb.to_set().contains(k) {
            let j = choose|j: int| 0 <= j < vb.len() && vb[j] == k;
            assert(b[j]@ == k);
            let i = choose|i: int| 0 <= i < a.len() && (#[trigger] a[i])@ == k;
            assert(va[i] == k);
        }
    }
    assert(va.to_set() =~= vb.to_set());
    assert(va.no_duplicates()) by {
        assert forall|i: int, j: int| 0 <= i < va.len() && 0 <= j < va.len() && i != j implies va[i] != va[j] by {
            assert(a[i]@ != a[j]@);
        }
    }
    assert(vb.no_duplicates()) by {
        assert forall|i: int, j: int| 0 <= i < vb.len() && 0 <= j < vb.len() && i != j implies vb[i] != vb[j] by {
            assert(b[i]@ != b[j]@);
        }
    }
    va.unique_seq_to_set();
    vb.unique_seq_to_set();
}

/// Suggestions come closest first: along the list, the edit distance from
/// the unknown module to each suggested module's last name component never
/// goes down; at equal distance, modules to import come before imported
/// ones, and suggestions of one kind come in name order.
pub proof fn lemma_suggestions_closest_first(
    env: Environment,
    module: Seq<char>,
    what: (nat, Seq<char>),
    r: Seq<ModuleSuggestion>,
    i: int,
    j: int,
)
    requires
        env.suggests(module, what, r),
        0 <= i < j < r.len(),
    ensures
        distance(module, last_component(r[i].name())) <= distance(module, last_component(r[j].name())),
        distance(module, last_component(r[i].name())) == distance(module, last_component(r[j].name())) && r[j] is Importable
            ==> r[i] is Importable,
        distance(module, last_component(r[i].name())) == distance(module, last_component(r[j].name())) && (r[i] is Importable
            <==> r[j] is Importable) ==> crate::suggestions::text_lt(r[i].name(), r[j].name()),
{
    let q = suggestion_ranks(module, r);
    assert(crate::suggestions::rank_lt(q[i], q[j]));
}

/// Using a private value whose type is a named type uses the type of this
/// module of that name, whatever the named type's arguments.
pub proof fn lemma_private_value_uses_its_named_type(env: Environment, v: ValueConstructor)
    requires
        v.publicity is Private,
        v.type_ is Named,
        env.module_types@.contains_key(v.type_->Named_name@),
    ensures
        env.type_used_by(v) == Some(env.module_types@[v.type_->Named_name@].0),
{
}

/// Using a private value whose type is a variable linked to a named type
/// uses the type of this module of that name, whatever its arguments.
pub proof fn lemma_private_value_uses_its_linked_named_type(env: Environment, v: ValueConstructor)
    requires
        env.wf(),
        v.publicity is Private,
        v.type_ is Var,
        v.type_->type_ < env.type_vars@.len(),
        env.type_vars@.cells[v.type_->type_ as int] is Link,
        env.type_vars@.cells[v.type_->type_ as int]->type_ is Named,
        env.module_types@.contains_key(env.type_vars@.cells[v.type_->type_ as int]->type_->Named_name@),
    ensures
        env.type_used_by(v) == Some(
            env.module_types@[env.type_vars@.cells[v.type_->type_ as int]->type_->Named_name@].0,
        ),
{
    let s = env.type_vars@;
    let c = v.type_->type_ as int;
    assert(s.rank[c] < s.bound);
    assert(crate::types::named_type_name_of(s, s.cells[c]->type_, s.rank[c]) is Some);
}

/// The ranks of suggestions, each at its distance from `module`.
pub open spec fn suggestion_ranks(module: Seq<char>, r: Seq<ModuleSuggestion>) -> Seq<Rank> {
    r.map_values(|s: ModuleSuggestion| rank_of(s, distance(module, last_component(s.name()))))
}

impl<'a> Environment<'a> {
    /// The module `name` could be imported to provide what is looked for:
    /// it is not imported yet and exports it publicly.
    pub open spec fn importable_candidate(&self, what: (nat, Seq<char>), name: Seq<char>) -> bool {
        let table = module_table(*self.importable_modules);
        &&& table.contains_key(name)
        &&& !self.imported_modules@.contains_key(last_component(name))
        &&& if what.0 == 1 {
            table[name].types@.contains_key(what.1) && table[name].types@[what.1].publicity.spec_is_importable()
        } else if what.0 == 2 {
            table[name].values@.contains_key(what.1) && table[name].values@[what.1].publicity.spec_is_importable()
        } else {
            false
        }
    }

    /// The rank `x` belongs to a suggestion for the unknown `module`: an
    /// importable candidate or an imported module, close enough by name.
    pub open spec fn suggested(&self, module: Seq<char>, what: (nat, Seq<char>), x: Rank) -> bool {
        &&& x.0 == distance(module, last_component(x.2))
        &&& x.0 <= suggestion_threshold(module)
        &&& ((x.1 == 0 && self.importable_candidate(what, x.2)) || (x.1 == 1
            && self.imported_modules@.contains_key(x.2)))
    }

    /// `r` are the suggestions for the unknown `module`: each suggested
    /// module once, closest first, then importable before imported, then by
    /// name.
    pub open spec fn suggests(&self, module: Seq<char>, what: (nat, Seq<char>), r: Seq<ModuleSuggestion>) -> bool {
        &&& strictly_sorted(suggestion_ranks(module, r))
        &&& forall|x: Rank| #[trigger] suggestion_ranks(module, r).contains(x) <==> self.suggested(module, what, x)
    }

    /// Suggest modules to import or use, for an unknown module.
    pub fn suggest_modules(&self, module: &str, imported: Imported) -> (r: Vec<ModuleSuggestion>)
        ensures
            self.suggests(module@, import_view(imported), r@),
    {
        let ghost what = import_view(imported);
        let c = module.unicode_len() / 3;
        let threshold = if c >= 1 {
            c
        } else {
            1
        };
        let mut sorted: Vec<(ModuleSuggestion, usize)> = Vec::new();
        let names = module_names(self.importable_modules);
        let n = names.len();
        let mut i: usize = 0;
        while i < n
            invariant
                n == names@.len(),
                i <= n,
                threshold == suggestion_threshold(module@),
                what == import_view(imported),
                enumerates(names@, module_table(*self.importable_modules)),
                strictly_sorted(ranks(sorted@)),
                forall|x: Rank| #[trigger] ranks(sorted@).contains(x) <==> (self.suggested(module@, what, x) && x.1 == 0
                    && exists|j: int| 0 <= j < i && (#[trigger] names@[j])@ == x.2),
            decreases n - i,
        {
            let name = &names[i];
            let ghost nm = name@;
            let ghost before = ranks(sorted@);
            let last = last_name_component(name.as_str());
            let mut added = false;
            if !self.imported_modules.contains_key(last.as_str()) {
                let info = module_get(self.importable_modules, name.as_str()).unwrap();
                let keep = match &imported {
                    Imported::Type(t) => info.get_public_type(t.as_str()).is_some(),
                    Imported::Value(v) => info.get_public_value(v.as_str()).is_some(),
                    Imported::Module => false,
                };
                assert(keep == self.importable_candidate(what, nm));
                if keep {
                    let s = ModuleSuggestion::Importable(name.clone());
                    match edit_distance(module, last.as_str(), threshold) {
                        Some(d) => {
                            proof {
                                let x = rank_of(s, d as nat);
                                if before.contains(x) {
                                    let j = choose|j: int| 0 <= j < i && (#[trigger] names@[j])@ == x.2;
                                    assert(names@[j]@ == names@[i as int]@);
                                }
                            }
                            insert_sorted(&mut sorted, (s, d));
                            added = true;
                            proof {
                                let x = rank_of(s, d as nat);
                                assert(self.suggested(module@, what, x));
                            }
                        },
                        None => {},
                    }
                }
            }
            proof {
                let after = ranks(sorted@);
                assert forall|x: Rank| #[trigger] after.contains(x) <==> (self.suggested(module@, what, x) && x.1 == 0
                    && exists|j: int| 0 <= j < i + 1 && (#[trigger] names@[j])@ == x.2) by {
                    if after.contains(x) {
                        if !before.contains(x) {
                            assert(after.to_set().contains(x));
                            assert(added);
                            assert(names@[i as int]@ == x.2);
                        } else {
                            let j = choose|j: int| 0 <= j < i && (#[trigger] names@[j])@ == x.2;
                        }
                    }
                    if self.suggested(module@, what, x) && x.1 == 0 && exists|j: int| 0 <= j < i + 1 && (#[trigger] names@[j])@ == x.2 {
                        let j = choose|j: int| 0 <= j < i + 1 && (#[trigger] names@[j])@ == x.2;
                        if j < i {
                            assert(before.contains(x));
                            if added {
                                assert(after.to_set().contains(x));
                            }
                        } else {
                            assert(x.2 == nm);
                            assert(added);
                            assert(after.to_set().contains(x));
                        }
                    }
                }
            }
            i = i + 1;
        }
        let keys = self.imported_modules.keys();
        let _ = self.imported_modules.len();
        let m = keys.len();
        let mut i: usize = 0;
        while i < m
            invariant
                m == keys@.len(),
                i <= m,
                threshold == suggestion_threshold(module@),
                what == import_view(imported),
                keys@.len() == self.imported_modules.pairs().len(),
                forall|j: int| 0 <= j < keys@.len() ==> (#[trigger] keys@[j])@ == self.imported_modules.pairs()[j].0,
                lists(self.imported_modules.pairs(), self.imported_modules@),
                enumerates(names@, module_table(*self.importable_modules)),
                strictly_sorted(ranks(sorted@)),
                forall|x: Rank| #[trigger] ranks(sorted@).contains(x) <==> (self.suggested(module@, what, x) && (x.1 == 0
                    || exists|j: int| 0 <= j < i && (#[trigger] keys@[j])@ == x.2)),
            decreases m - i,
        {
            let name = &keys[i];
            let ghost nm = name@;
            let ghost before = ranks(sorted@);
            let s = ModuleSuggestion::Imported(name.clone());
            let last = last_name_component(name.as_str());
            let mut added = false;
            match edit_distance(module, last.as_str(), threshold) {
                Some(d) => {
                    proof {
                        let x = rank_of(s, d as nat);
                        if before.contains(x) {
                            let j = choose|j: int| 0 <= j < i && (#[trigger] keys@[j])@ == x.2;
                            assert(self.imported_modules.pairs()[j].0 == self.imported_modules.pairs()[i as int].0);
                        }
                    }
                    insert_sorted(&mut sorted, (s, d));
                    added = true;
                    proof {
                        let x = rank_of(s, d as nat);
                        assert(self.imported_modules@.contains_key(self.imported_modules.pairs()[i as int].0));
                        assert(self.suggested(module@, what, x));
                    }
                },
                None => {},
            }
            proof {
                let after = ranks(sorted@);
                assert forall|x: Rank| #[trigger] after.contains(x) <==> (self.suggested(module@, what, x) && (x.1 == 0
                    || exists|j: int| 0 <= j < i + 1 && (#[trigger] keys@[j])@ == x.2)) by {
                    if after.contains(x) {
                        if !before.contains(x) {
                            assert(after.to_set().contains(x));
                            assert(added);
                            assert(keys@[i as int]@ == x.2);
                        } else {
                            if x.1 != 0 {
                                let j = choose|j: int| 0 <= j < i && (#[trigger] keys@[j])@ == x.2;
                            }
                        }
                    }
                    if self.suggested(module@, what, x) && (x.1 == 0 || exists|j: int| 0 <= j < i + 1 && (#[trigger] keys@[j])@ == x.2) {
                        if x.1 == 0 {
                            assert(before.contains(x));
                            if added {
                                assert(after.to_set().contains(x));
                            }
                        } else {
                            let j = choose|j: int| 0 <= j < i + 1 && (#[trigger] keys@[j])@ == x.2;
                            if j < i {
                                assert(before.contains(x));
                                if added {
                                    assert(after.to_set().contains(x));
                                }
                            } else {
                                assert(x.2 == nm);
                                assert(added);
                                assert(after.to_set().contains(x));
                            }
                        }
                    }
                }
            }
            i = i + 1;
        }
        proof {
            assert forall|x: Rank| #[trigger] ranks(sorted@).contains(x) <==> self.suggested(module@, what, x) by {
                if self.suggested(module@, what, x) && x.1 != 0 {
                    let k = choose|k: int| 0 <= k < self.imported_modules.pairs().len() && (#[trigger] self.imported_modules.pairs()[k]).0 == x.2;
                    assert(keys@[k]@ == x.2);
                }
            }
        }
        let total = sorted.len();
        let mut r: Vec<ModuleSuggestion> = Vec::new();
        let mut k: usize = 0;
        while k < total
            invariant
                total == sorted@.len(),
                k <= total,
                r@.len() == k,
                forall|x: Rank| #[trigger] ranks(sorted@).contains(x) ==> self.suggested(module@, what, x),
                forall|j: int| 0 <= j < k ==> (#[trigger] r@[j]) == sorted@[j].0,
            decreases total - k,
        {
            r.push(copy_suggestion(&sorted[k].0));
            k = k + 1;
        }
        proof {
            assert(suggestion_ranks(module@, r@) =~= ranks(sorted@)) by {
                assert forall|j: int| 0 <= j < r@.len() implies suggestion_ranks(module@, r@)[j] == ranks(sorted@)[j] by {
                    let x = ranks(sorted@)[j];
                    assert(ranks(sorted@).contains(x));
                }
            }
        }
        r
    }
}

/// A copy of a suggestion.
pub fn copy_suggestion(s: &ModuleSuggestion) -> (r: ModuleSuggestion)
    ensures
        r == *s,
{
    match s {
        ModuleSuggestion::Importable(m) => ModuleSuggestion::Importable(m.clone()),
        ModuleSuggestion::Imported(m) => ModuleSuggestion::Imported(m.clone()),
    }
}


/// The hint given for an unknown type `name`: a value of that name is in
/// scope, or else the names of the module's types.
pub open spec fn type_hint_for(env_scope: Map<Seq<char>, (u64, ValueConstructor)>, module_types: Seq<Seq<char>>, name: Seq<char>, hint: UnknownTypeHint) -> bool {
    if env_scope.contains_key(name) {
        hint is ValueInScopeWithSameName
    } else {
        hint is AlternativeTypes && hint->AlternativeTypes_0@.map_values(|s: String| s@) == module_types
    }
}

/// The names of the entries, in order.
pub open spec fn names_of<V>(p: Seq<(Seq<char>, V)>) -> Seq<Seq<char>> {
    p.map_values(|e: (Seq<char>, V)| e.0)
}

impl<'a> Environment<'a> {
    /// The names of the values in scope, but the pipe variable.
    pub fn local_value_names(&self) -> (r: Vec<String>)
        ensures
            enumerates_but_pipe(r@, self.scope_view()),
    {
        let keys = scope_keys(&self.scope);
        let n = keys.len();
        let mut r: Vec<String> = Vec::new();
        let mut i: usize = 0;
        while i < n
            invariant
                n == keys@.len(),
                i <= n,
                enumerates(keys@, self.scope_view()),
                forall|j: int| 0 <= j < r@.len() ==> self.scope_view().contains_key((#[trigger] r@[j])@) && r@[j]@ != PIPE_VARIABLE@,
                forall|a: int, b: int| 0 <= a < r@.len() && 0 <= b < r@.len() && a != b ==> (#[trigger] r@[a])@ != (#[trigger] r@[b])@,
                forall|j: int| 0 <= j < r@.len() ==> exists|k: int| 0 <= k < i && (#[trigger] keys@[k])@ == (#[trigger] r@[j])@,
                forall|k: int| 0 <= k < i && (#[trigger] keys@[k])@ != PIPE_VARIABLE@ ==> exists|j: int| 0 <= j < r@.len() && (#[trigger] r@[j])@ == keys@[k]@,
            decreases n - i,
        {
            let name = &keys[i];
            if !crate::name_map::str_eq(name.as_str(), PIPE_VARIABLE) {
                let ghost before = r@;
                r.push(name.clone());
                proof {
                    assert forall|a: int, b: int| 0 <= a < r@.len() && 0 <= b < r@.len() && a != b implies (#[trigger] r@[a])@ != (#[trigger] r@[b])@ by {
                        if a < before.len() && b < before.len() {
                        } else if a < before.len() {
                            let k = choose|k: int| 0 <= k < i && (#[trigger] keys@[k])@ == (#[trigger] r@[a])@;
                            assert(keys@[k]@ != keys@[i as int]@);
                        } else if b < before.len() {
                            let k = choose|k: int| 0 <= k < i && (#[trigger] keys@[k])@ == (#[trigger] r@[b])@;
                            assert(keys@[k]@ != keys@[i as int]@);
                        }
                    }
                    assert forall|j: int| 0 <= j < r@.len() implies exists|k: int| 0 <= k < i + 1 && (#[trigger] keys@[k])@ == (#[trigger] r@[j])@ by {
                        if j < before.len() {
                            let k = choose|k: int| 0 <= k < i && (#[trigger] keys@[k])@ == (#[trigger] before[j])@;
                            assert(keys@[k]@ == r@[j]@);
                        } else {
                            assert(keys@[i as int]@ == r@[j]@);
                        }
                    }
                    assert forall|k: int| 0 <= k < i + 1 && (#[trigger] keys@[k])@ != PIPE_VARIABLE@ implies exists|j: int| 0 <= j < r@.len() && (#[trigger] r@[j])@ == keys@[k]@ by {
                        if k < i {
                            let j = choose|j: int| 0 <= j < before.len() && (#[trigger] before[j])@ == keys@[k]@;
                            assert(r@[j] == before[j]);
                        } else {
                            assert(r@[before.len() as int]@ == keys@[k]@);
                        }
                    }
                }
            }
            i = i + 1;
        }
        proof {
            assert forall|k: Seq<char>| #[trigger] self.scope_view().contains_key(k) && k != PIPE_VARIABLE@ implies exists|j: int| 0 <= j < r@.len() && (#[trigger] r@[j])@ == k by {
                let kk = choose|kk: int| 0 <= kk < keys@.len() && (#[trigger] keys@[kk])@ == k;
            }
        }
        r
    }

    /// The hint for an unknown type `name`.
    fn unknown_type_hint(&self, name: &String) -> (r: UnknownTypeHint)
        ensures
            type_hint_for(self.scope_view(), names_of(self.module_types.pairs()), name@, r),
    {
        if scope_contains_key(&self.scope, name.as_str()) {
            UnknownTypeHint::ValueInScopeWithSameName
        } else {
            let keys = self.module_types.keys();
            proof {
                assert(keys@.map_values(|s: String| s@) =~= names_of(self.module_types.pairs()));
            }
            UnknownTypeHint::AlternativeTypes(keys)
        }
    }

    /// Look up a type in the current scope. An unqualified name is looked
    /// up among the module's types, recording its use unless `location` is
    /// where the type is defined; a qualified one in the module imported
    /// under that alias, which is no longer unused.
    pub fn get_type_constructor(
        &mut self,
        module_alias: &Option<(String, SrcSpan)>,
        name: &String,
        location: &SrcSpan,
    ) -> (r: Result<&TypeConstructor, UnknownTypeConstructorError>)
        ensures
            match module_alias {
                None => {
                    let types = old(self).module_types@;
                    &&& *final(self) == (Environment { type_usage_graph: final(self).type_usage_graph, ..*old(self) })
                    &&& if types.contains_key(name@) {
                        let (id, t) = types[name@];
                        &&& r matches Ok(c) && *c == t
                        &&& if *location != t.origin {
                            usage_added(old(self).type_usage_graph@, final(self).type_usage_graph@, id, *location)
                        } else {
                            final(self).type_usage_graph@ == old(self).type_usage_graph@
                        }
                    } else {
                        &&& final(self).type_usage_graph@ == old(self).type_usage_graph@
                        &&& r matches Err(UnknownTypeConstructorError::Type { name: n, hint }) && n@ == name@
                            && type_hint_for(old(self).scope_view(), names_of(old(self).module_types.pairs()), name@, hint)
                    }
                },
                Some((module_name, _)) => if !old(self).imported_modules@.contains_key(module_name@) {
                    &&& *final(self) == *old(self)
                    &&& r matches Err(UnknownTypeConstructorError::Module { name: n, suggestions }) && n@ == module_name@
                        && old(self).suggests(module_name@, (1, name@), suggestions@)
                } else {
                    let module = old(self).imported_modules@[module_name@].1;
                    &&& *final(self) == (Environment {
                        unused_modules: final(self).unused_modules,
                        unused_module_aliases: final(self).unused_module_aliases,
                        ..*old(self)
                    })
                    &&& final(self).unused_modules@ == old(self).unused_modules@.remove(module_name@)
                    &&& final(self).unused_module_aliases@ == old(self).unused_module_aliases@.remove(module_name@)
                    &&& if module.types@.contains_key(name@) {
                        r matches Ok(c) && *c == module.types@[name@]
                    } else {
                        r matches Err(UnknownTypeConstructorError::ModuleType { name: n, module_name: m, type_constructors, imported_type_as_value })
                            && n@ == name@ && m@ == module.name@ && !imported_type_as_value
                            && type_constructors@.map_values(|s: String| s@) == crate::module::public_type_names_of(module.types.pairs())
                    }
                },
            },
    {
        match module_alias {
            None => {
                let found: Option<(u64, SrcSpan)> = match self.module_types.get(name.as_str()) {
                    Some(entry) => Some((entry.0, entry.1.origin)),
                    None => None,
                };
                match found {
                    Some((id, origin)) => {
                        if *location != origin {
                            record_usage(&mut self.type_usage_graph, id, *location);
                        }
                        match self.module_types.get(name.as_str()) {
                            Some(entry) => Ok(&entry.1),
                            None => Err(UnknownTypeConstructorError::Type {
                                name: name.clone(),
                                hint: UnknownTypeHint::ValueInScopeWithSameName,
                            }),
                        }
                    },
                    None => Err(UnknownTypeConstructorError::Type { name: name.clone(), hint: self.unknown_type_hint(name) }),
                }
            },
            Some((module_name, _)) => {
                let module: &'a ModuleInterface = match self.imported_modules.get(module_name.as_str()) {
                    Some(entry) => entry.1,
                    None => {
                        return Err(UnknownTypeConstructorError::Module {
                            name: module_name.clone(),
                            suggestions: self.suggest_modules(module_name.as_str(), Imported::Type(name.clone())),
                        });
                    },
                };
                let _ = self.unused_modules.remove(module_name.as_str());
                let _ = self.unused_module_aliases.remove(module_name.as_str());
                match module.types.get(name.as_str()) {
                    Some(t) => Ok(t),
                    None => Err(UnknownTypeConstructorError::ModuleType {
                        name: name.clone(),
                        module_name: module.name.clone(),
                        type_constructors: module.public_type_names(),
                        imported_type_as_value: false,
                    }),
                }
            },
        }
    }

    /// Look up the constructors of a type: in the current module when
    /// `module` is empty or the current module, else in the importable
    /// module of that name.
    pub fn get_constructors_for_type(&self, module: &String, name: &String) -> (r: Result<&TypeVariantConstructors, UnknownTypeConstructorError>)
        ensures
            if module@.len() == 0 || module@ == self.current_module@ {
                if self.module_types_constructors@.contains_key(name@) {
                    r matches Ok(c) && *c == self.module_types_constructors@[name@]
                } else {
                    r matches Err(UnknownTypeConstructorError::Type { name: n, hint }) && n@ == name@
                        && type_hint_for(self.scope_view(), names_of(self.module_types.pairs()), name@, hint)
                }
            } else if !module_table(*self.importable_modules).contains_key(module@) {
                r matches Err(UnknownTypeConstructorError::Module { name: n, suggestions }) && n@ == name@
                    && self.suggests(module@, (1, name@), suggestions@)
            } else {
                let m = module_table(*self.importable_modules)[module@];
                if m.types_value_constructors@.contains_key(name@) {
                    r matches Ok(c) && *c == m.types_value_constructors@[name@]
                } else {
                    r matches Err(UnknownTypeConstructorError::ModuleType { name: n, module_name: mn, type_constructors, imported_type_as_value })
                        && n@ == name@ && mn@ == m.name@ && !imported_type_as_value
                        && type_constructors@.map_values(|s: String| s@) == crate::module::public_type_names_of(m.types.pairs())
                }
            },
    {
        let local = module.unicode_len() == 0 || *module == self.current_module;
        if local {
            match self.module_types_constructors.get(name.as_str()) {
                Some(c) => Ok(c),
                None => Err(UnknownTypeConstructorError::Type { name: name.clone(), hint: self.unknown_type_hint(name) }),
            }
        } else {
            let m = match module_get(self.importable_modules, module.as_str()) {
                Some(m) => m,
                None => {
                    return Err(UnknownTypeConstructorError::Module {
                        name: name.clone(),
                        suggestions: self.suggest_modules(module.as_str(), Imported::Type(name.clone())),
                    });
                },
            };
            match m.types_value_constructors.get(name.as_str()) {
                Some(c) => Ok(c),
                None => Err(UnknownTypeConstructorError::ModuleType {
                    name: name.clone(),
                    module_name: m.name.clone(),
                    type_constructors: m.public_type_names(),
                    imported_type_as_value: false,
                }),
            }
        }
    }
}


impl<'a> Environment<'a> {
    /// The type usage that a use of the private value `v` brings: the
    /// named type that it is, if the module defines one of that name.
    pub open spec fn type_used_by(&self, v: ValueConstructor) -> Option<u64> {
        if v.publicity is Private {
            match named_type_name_of(self.type_vars@, v.type_, self.type_vars@.bound) {
                Some((_, tn)) => if self.module_types@.contains_key(tn) {
                    Some(self.module_types@[tn].0)
                } else {
                    None
                },
                None => None,
            }
        } else {
            None
        }
    }

    /// Look up a value constructor. An unqualified name is looked up in
    /// scope, recording its use, and the use of its type when it is private
    /// and of a named type of this module; a qualified one among the public
    /// values of the module imported under that alias, which is no longer
    /// unused.
    pub fn get_value_constructor(
        &mut self,
        module: Option<&String>,
        name: &String,
        location: &SrcSpan,
    ) -> (r: Result<&ValueConstructor, UnknownValueConstructorError>)
        requires
            old(self).wf(),
        ensures
            match module {
                None => {
                    let scope = old(self).scope_view();
                    &&& *final(self) == (Environment {
                        value_usage_graph: final(self).value_usage_graph,
                        type_usage_graph: final(self).type_usage_graph,
                        ..*old(self)
                    })
                    &&& if scope.contains_key(name@) {
                        let (id, v) = scope[name@];
                        &&& r matches Ok(c) && *c == v
                        &&& usage_added(old(self).value_usage_graph@, final(self).value_usage_graph@, id, *location)
                        &&& match old(self).type_used_by(v) {
                            Some(tid) => if old(self).value_usage_graph@.contains_key(id) {
                                usage_added(old(self).type_usage_graph@, final(self).type_usage_graph@, tid, *location)
                            } else {
                                final(self).type_usage_graph@ == old(self).type_usage_graph@
                            },
                            None => final(self).type_usage_graph@ == old(self).type_usage_graph@,
                        }
                    } else {
                        &&& final(self).value_usage_graph@ == old(self).value_usage_graph@
                        &&& final(self).type_usage_graph@ == old(self).type_usage_graph@
                        &&& r matches Err(UnknownValueConstructorError::Variable { name: n, variables, type_with_name_in_scope })
                            && n@ == name@ && enumerates_but_pipe(variables@, scope)
                            && type_with_name_in_scope == old(self).module_types@.contains_key(name@)
                    }
                },
                Some(module_name) => if !old(self).imported_modules@.contains_key(module_name@) {
                    &&& *final(self) == *old(self)
                    &&& r matches Err(UnknownValueConstructorError::Module { name: n, suggestions }) && n@ == module_name@
                        && old(self).suggests(module_name@, (2, name@), suggestions@)
                } else {
                    let m = old(self).imported_modules@[module_name@].1;
                    &&& *final(self) == (Environment {
                        unused_modules: final(self).unused_modules,
                        unused_module_aliases: final(self).unused_module_aliases,
                        ..*old(self)
                    })
                    &&& final(self).unused_modules@ == old(self).unused_modules@.remove(module_name@)
                    &&& final(self).unused_module_aliases@ == old(self).unused_module_aliases@.remove(module_name@)
                    &&& if m.values@.contains_key(name@) && m.values@[name@].publicity.spec_is_importable() {
                        r matches Ok(c) && *c == m.values@[name@]
                    } else {
                        r matches Err(UnknownValueConstructorError::ModuleValue { name: n, module_name: mn, value_constructors, imported_value_as_type })
                            && n@ == name@ && mn@ == m.name@ && !imported_value_as_type
                            && value_constructors@.map_values(|s: String| s@) == crate::module::public_value_names_of(m.values.pairs())
                    }
                },
            },
    {
        match module {
            None => {
                let found: Option<(u64, Option<u64>)> = match scope_get(&self.scope, name.as_str()) {
                    Some(entry) => {
                        let v = &entry.1;
                        let type_id: Option<u64> = if v.publicity.is_private() {
                            match named_type_name(&v.type_, &self.type_vars) {
                                Some((_, tn)) => match self.module_types.get(tn.as_str()) {
                                    Some(t) => Some(t.0),
                                    None => None,
                                },
                                None => None,
                            }
                        } else {
                            None
                        };
                        Some((entry.0, type_id))
                    },
                    None => None,
                };
                match found {
                    Some((id, type_id)) => {
                        let tracked_value = self.value_usage_graph.contains_key(&id);
                        record_usage(&mut self.value_usage_graph, id, *location);
                        if tracked_value {
                            match type_id {
                                Some(tid) => record_usage(&mut self.type_usage_graph, tid, *location),
                                None => {},
                            }
                        }
                        match scope_get(&self.scope, name.as_str()) {
                            Some(entry) => Ok(&entry.1),
                            None => Err(UnknownValueConstructorError::Variable {
                                name: name.clone(),
                                variables: Vec::new(),
                                type_with_name_in_scope: false,
                            }),
                        }
                    },
                    None => {
                        let type_with_name_in_scope = self.module_types.contains_key(name.as_str());
                        Err(UnknownValueConstructorError::Variable {
                            name: name.clone(),
                            variables: self.local_value_names(),
                            type_with_name_in_scope,
                        })
                    },
                }
            },
            Some(module_name) => {
                let m: &'a ModuleInterface = match self.imported_modules.get(module_name.as_str()) {
                    Some(entry) => entry.1,
                    None => {
                        return Err(UnknownValueConstructorError::Module {
                            name: module_name.clone(),
                            suggestions: self.suggest_modules(module_name.as_str(), Imported::Value(name.clone())),
                        });
                    },
                };
                let _ = self.unused_modules.remove(module_name.as_str());
                let _ = self.unused_module_aliases.remove(module_name.as_str());
                match m.get_public_value(name.as_str()) {
                    Some(v) => Ok(v),
                    None => Err(UnknownValueConstructorError::ModuleValue {
                        name: name.clone(),
                        module_name: m.name.clone(),
                        value_constructors: m.public_value_names(),
                        imported_value_as_type: false,
                    }),
                }
            },
        }
    }
}

} // verus!
