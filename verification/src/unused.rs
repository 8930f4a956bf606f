//! Warnings for what a module defines or imports and never uses.

use vstd::prelude::*;
use std::collections::HashMap;
use vstd::std_specs::iter::IteratorSpec;
use crate::types::{Publicity, SrcSpan, Type};
use crate::module::{Deprecation, ValueConstructor, ValueConstructorVariant};
use crate::problems::{warning_views, Problems, Warning, WarningView};
use crate::environment::{usage_added, usage_inserted, Environment, TypeUsage, UnusedModuleAlias, ValueUsage};
use crate::name_map::str_eq;

verus! {

broadcast use vstd::std_specs::hash::group_hash_axioms;

/// The warning for a type of the usage graph, if it was never used: it is
/// imported, or private to the current module.
pub open spec fn type_warning(current_module: Seq<char>, u: TypeUsage) -> Option<WarningView> {
    let (tc, name, usages) = u;
    let imported = tc.module@ != current_module;
    if usages@.len() == 0 && (imported || tc.publicity is Private) {
        Some(WarningView::UnusedType { location: tc.origin, imported, name: name@ })
    } else {
        None
    }
}

/// The warning for a value of the usage graph, if it was never used.
pub open spec fn value_warning(
    current_module: Seq<char>,
    unqualified: Map<Seq<char>, SrcSpan>,
    u: ValueUsage,
) -> Option<WarningView> {
    let (vc, name, usages) = u;
    let private = vc.publicity is Private;
    if usages@.len() != 0 {
        None
    } else {
        match vc.variant {
            ValueConstructorVariant::LocalVariable { location } => Some(
                WarningView::UnusedVariable { location, how_to_ignore: Some(seq!['_'] + name@) },
            ),
            ValueConstructorVariant::LocalConstant { literal } => if private {
                Some(WarningView::UnusedLiteral { location: literal.location })
            } else {
                None
            },
            ValueConstructorVariant::Record { name: record, module, location } => if private {
                Some(WarningView::UnusedConstructor { location, imported: module@ == current_module, name: record@ })
            } else {
                None
            },
            ValueConstructorVariant::ModuleFn { name: function, module, location, implementations } => if private {
                Some(WarningView::UnusedPrivateFunction { location, name: function@ })
            } else if module@ != current_module && implementations.gleam {
                Some(
                    WarningView::UnusedImportedValue {
                        location: if unqualified.contains_key(function@) {
                            unqualified[function@]
                        } else {
                            location
                        },
                        name: function@,
                    },
                )
            } else {
                None
            },
            ValueConstructorVariant::ModuleConstant { location, module } => if private {
                Some(WarningView::UnusedPrivateModuleConstant { location, name: name@ })
            } else if module@ != current_module {
                Some(WarningView::UnusedImportedValue { location, name: name@ })
            } else {
                None
            },
        }
    }
}

/// The warnings for the types of `graph`, taken in the order of `order`.
pub open spec fn type_warnings(current_module: Seq<char>, graph: Map<u64, TypeUsage>, order: Seq<u64>) -> Seq<WarningView>
    decreases order.len(),
{
    if order.len() == 0 {
        Seq::empty()
    } else {
        let before = type_warnings(current_module, graph, order.drop_last());
        let id = order.last();
        if graph.contains_key(id) {
            match type_warning(current_module, graph[id]) {
                Some(w) => before.push(w),
                None => before,
            }
        } else {
            before
        }
    }
}

/// The warnings for the values of `graph`, taken in the order of `order`.
pub open spec fn value_warnings(
    current_module: Seq<char>,
    unqualified: Map<Seq<char>, SrcSpan>,
    graph: Map<u64, ValueUsage>,
    order: Seq<u64>,
) -> Seq<WarningView>
    decreases order.len(),
{
    if order.len() == 0 {
        Seq::empty()
    } else {
        let before = value_warnings(current_module, unqualified, graph, order.drop_last());
        let id = order.last();
        if graph.contains_key(id) {
            match value_warning(current_module, unqualified, graph[id]) {
                Some(w) => before.push(w),
                None => before,
            }
        } else {
            before
        }
    }
}

/// The aliases, in order, of modules that are not themselves unused.
pub open spec fn unused_aliases(
    aliases: Seq<(Seq<char>, UnusedModuleAlias)>,
    unused_modules: Map<Seq<char>, SrcSpan>,
) -> Seq<(Seq<char>, UnusedModuleAlias)>
    decreases aliases.len(),
{
    if aliases.len() == 0 {
        Seq::empty()
    } else {
        let before = unused_aliases(aliases.drop_last(), unused_modules);
        if unused_modules.contains_key(aliases.last().0) {
            before
        } else {
            before.push(aliases.last())
        }
    }
}

/// A warning for each unused module.
pub open spec fn module_warnings(modules: Seq<(Seq<char>, SrcSpan)>) -> Seq<WarningView> {
    modules.map_values(|e: (Seq<char>, SrcSpan)| WarningView::UnusedImportedModule { location: e.1, name: e.0 })
}

/// A warning for each unused alias.
pub open spec fn alias_warnings(aliases: Seq<(Seq<char>, UnusedModuleAlias)>) -> Seq<WarningView> {
    aliases.map_values(
        |e: (Seq<char>, UnusedModuleAlias)|
            WarningView::UnusedImportedModuleAlias {
                location: e.1.location,
                alias: e.0,
                module_name: e.1.module_name@,
            },
    )
}

/// `order` lists each id of `ids` once.
pub open spec fn enumerates_ids(order: Seq<u64>, ids: Set<u64>) -> bool {
    order.no_duplicates() && order.to_set() == ids
}

/// What reporting the unused definitions of `env` did, with the types and
/// the values of its usage graphs taken in the given orders: the warnings
/// were `w1` and became `w2`, and `locations` is what was returned, the
/// locations of the unused imports.
pub open spec fn unused_reported(
    env: Environment,
    w1: Seq<Warning>,
    w2: Seq<Warning>,
    type_order: Seq<u64>,
    value_order: Seq<u64>,
    locations: Seq<SrcSpan>,
) -> bool {
    let aliases = unused_aliases(env.unused_module_aliases.pairs(), env.unused_modules@);
    &&& warning_views(w2) == warning_views(w1) + type_warnings(env.current_module@, env.type_usage_graph@, type_order)
        + value_warnings(env.current_module@, env.unqualified_imported_names@, env.value_usage_graph@, value_order)
        + module_warnings(env.unused_modules.pairs()) + alias_warnings(aliases)
    &&& locations == env.unused_modules.pairs().map_values(|e: (Seq<char>, SrcSpan)| e.1) + aliases.map_values(
        |e: (Seq<char>, UnusedModuleAlias)| e.1.location,
    )
}

/// A value that is not private is reported as unused only when it is a
/// local variable, or a function (with an implementation in the language
/// itself) or constant of another module: a public record constructor, a
/// public literal, or a public function or constant of this module, is
/// never reported.
pub proof fn lemma_public_values_reported_only_when_imported(
    current_module: Seq<char>,
    unqualified: Map<Seq<char>, SrcSpan>,
    u: ValueUsage,
)
    requires
        !(u.0.publicity is Private),
    ensures
        value_warning(current_module, unqualified, u) is Some ==> match u.0.variant {
            ValueConstructorVariant::LocalVariable { .. } => true,
            ValueConstructorVariant::ModuleFn { module, implementations, .. } => module@ != current_module
                && implementations.gleam,
            ValueConstructorVariant::ModuleConstant { module, .. } => module@ != current_module,
            _ => false,
        },
        u.0.variant is Record ==> value_warning(current_module, unqualified, u) is None,
        u.0.variant is LocalConstant ==> value_warning(current_module, unqualified, u) is None,
{
}

/// A type of this module that is not private is never reported as unused.
pub proof fn lemma_public_types_of_this_module_not_reported(current_module: Seq<char>, u: TypeUsage)
    requires
        !(u.0.publicity is Private),
        u.0.module@ == current_module,
    ensures
        type_warning(current_module, u) is None,
{
}

/// The aliases reported are exactly those of modules that are not
/// themselves reported unused, each as often as it is listed.
pub proof fn lemma_unused_aliases_are_those_of_used_modules(
    aliases: Seq<(Seq<char>, UnusedModuleAlias)>,
    unused_modules: Map<Seq<char>, SrcSpan>,
    x: (Seq<char>, UnusedModuleAlias),
)
    ensures
        unused_aliases(aliases, unused_modules).contains(x) <==> aliases.contains(x) && !unused_modules.contains_key(x.0),
    decreases aliases.len(),
{
    if aliases.len() > 0 {
        let before = aliases.drop_last();
        lemma_unused_aliases_are_those_of_used_modules(before, unused_modules, x);
        assert(aliases == before.push(aliases.last()));
        let q = unused_aliases(before, unused_modules);
        if aliases.contains(x) && !unused_modules.contains_key(x.0) {
            let i = choose|i: int| 0 <= i < aliases.len() && aliases[i] == x;
            if i < before.len() {
                assert(before[i] == x);
                assert(q.contains(x));
                let k = choose|k: int| 0 <= k < q.len() && q[k] == x;
                assert(q.push(aliases.last())[k] == x);
            } else {
                assert(q.push(aliases.last())[q.len() as int] == x);
            }
        }
        if unused_aliases(aliases, unused_modules).contains(x) {
            if !unused_modules.contains_key(aliases.last().0) {
                let i = choose|i: int| 0 <= i < q.len() + 1 && q.push(aliases.last())[i] == x;
                if i < q.len() {
                    assert(q[i] == x);
                    let j = choose|j: int| 0 <= j < before.len() && before[j] == x;
                    assert(aliases[j] == x);
                } else {
                    assert(aliases[aliases.len() - 1] == x);
                }
            } else {
                let j = choose|j: int| 0 <= j < before.len() && before[j] == x;
                assert(aliases[j] == x);
            }
        }
    }
}

/// A value whose use was recorded is never reported as unused.
pub proof fn lemma_used_value_not_reported(
    current_module: Seq<char>,
    unqualified: Map<Seq<char>, SrcSpan>,
    before: Map<u64, ValueUsage>,
    after: Map<u64, ValueUsage>,
    id: u64,
    location: SrcSpan,
)
    requires
        before.contains_key(id),
        usage_added(before, after, id, location),
    ensures
        after.contains_key(id),
        value_warning(current_module, unqualified, after[id]) is None,
{
    assert(after[id].2@.len() > 0);
}

/// A type whose use was recorded is never reported as unused.
pub proof fn lemma_used_type_not_reported(
    current_module: Seq<char>,
    before: Map<u64, TypeUsage>,
    after: Map<u64, TypeUsage>,
    id: u64,
    location: SrcSpan,
)
    requires
        before.contains_key(id),
        usage_added(before, after, id, location),
    ensures
        after.contains_key(id),
        type_warning(current_module, after[id]) is None,
{
    assert(after[id].2@.len() > 0);
}

/// A local variable that was inserted and never used is reported as unused,
/// with the hint to put an underscore before its name.
pub proof fn lemma_unused_variable_reported(
    current_module: Seq<char>,
    unqualified: Map<Seq<char>, SrcSpan>,
    before: Map<u64, ValueUsage>,
    after: Map<u64, ValueUsage>,
    id: u64,
    name: Seq<char>,
    location: SrcSpan,
    type_: Type,
)
    requires
        usage_inserted(
            before,
            after,
            id,
            ValueConstructor {
                deprecation: Deprecation::NotDeprecated,
                publicity: Publicity::Private,
                variant: ValueConstructorVariant::LocalVariable { location },
                type_,
            },
            name,
        ),
    ensures
        after.contains_key(id),
        value_warning(current_module, unqualified, after[id]) == Some(
            WarningView::UnusedVariable { location, how_to_ignore: Some(seq!['_'] + name) },
        ),
{
}

/// The ids of a usage graph, each once, in the order in which the map
/// hands them out.
fn usage_order<C>(graph: &HashMap<u64, C>) -> (r: Vec<u64>)
    ensures
        enumerates_ids(r@, graph@.dom()),
{
    let mut r: Vec<u64> = Vec::new();
    let ghost all = vstd::std_specs::hash::spec_keys_iter(graph).remaining();
    for k in it: graph.keys()
        invariant
            it.seq() == all,
            r@ == it.seq().take(it.index()).unref(),
    {
        assert(it.seq().take(it.index() + 1).unref() =~= it.seq().take(it.index()).unref().push(*k));
        r.push(*k);
    }
    proof {
        broadcast use vstd::std_specs::hash::axiom_spec_keys_iter;

        assert(all.take(all.len() as int) =~= all);
    }
    r
}

proof fn lemma_views_push(ws: Seq<Warning>, w: Warning)
    ensures
        warning_views(ws.push(w)) == warning_views(ws).push(w@),
{
    assert(warning_views(ws.push(w)) =~= warning_views(ws).push(w@));
}

impl<'a> Environment<'a> {
    /// Warn of each definition and import that was never used, with the
    /// types and then the values of the usage graphs taken in the given
    /// orders, then each unused module, then each unused alias of a module
    /// that is used. Returns the locations of the unused imports.
    pub fn unused_to_warnings_in_order(
        &self,
        problems: &mut Problems,
        type_order: &Vec<u64>,
        value_order: &Vec<u64>,
    ) -> (r: Vec<SrcSpan>)
        ensures
            final(problems).errors@ == old(problems).errors@,
            unused_reported(*self, old(problems).warnings@, final(problems).warnings@, type_order@, value_order@, r@),
    {
        let ghost w0 = problems.warnings@;
        let ghost cur = self.current_module@;
        let mut i: usize = 0;
        while i < type_order.len()
            invariant
                i <= type_order@.len(),
                cur == self.current_module@,
                problems.errors@ == old(problems).errors@,
                warning_views(problems.warnings@) == warning_views(w0) + type_warnings(
                    cur,
                    self.type_usage_graph@,
                    type_order@.subrange(0, i as int),
                ),
            decreases type_order@.len() - i,
        {
            let id = type_order[i];
            let ghost before = problems.warnings@;
            proof {
                assert(type_order@.subrange(0, i + 1).drop_last() =~= type_order@.subrange(0, i as int));
            }
            match self.type_usage_graph.get(&id) {
                Some(entry) => {
                    let (tc, name, usages) = entry;
                    let imported = !str_eq(tc.module.as_str(), self.current_module.as_str());
                    if usages.len() == 0 && (imported || tc.publicity.is_private()) {
                        let w = Warning::UnusedType { location: tc.origin, imported, name: name.clone() };
                        proof {
                            lemma_views_push(before, w);
                            assert(type_warning(cur, self.type_usage_graph@[id]) == Some(w@));
                        }
                        problems.warning(w);
                        assert(warning_views(problems.warnings@) =~= warning_views(w0) + type_warnings(
                            cur,
                            self.type_usage_graph@,
                            type_order@.subrange(0, i + 1),
                        ));
                    }
                },
                None => {},
            }
            i = i + 1;
        }
        assert(type_order@.subrange(0, type_order@.len() as int) =~= type_order@);
        let ghost w1 = problems.warnings@;

        let mut i: usize = 0;
        while i < value_order.len()
            invariant
                i <= value_order@.len(),
                cur == self.current_module@,
                problems.errors@ == old(problems).errors@,
                warning_views(problems.warnings@) == warning_views(w1) + value_warnings(
                    cur,
                    self.unqualified_imported_names@,
                    self.value_usage_graph@,
                    value_order@.subrange(0, i as int),
                ),
            decreases value_order@.len() - i,
        {
            let id = value_order[i];
            let ghost before = problems.warnings@;
            proof {
                assert(value_order@.subrange(0, i + 1).drop_last() =~= value_order@.subrange(0, i as int));
            }
            match self.value_usage_graph.get(&id) {
                Some(entry) => {
                    let (vc, name, usages) = entry;
                    if usages.len() == 0 {
                        let private = vc.publicity.is_private();
                        let found: Option<Warning> = match &vc.variant {
                            ValueConstructorVariant::LocalVariable { location } => {
                                let hint = String::from_str("_").concat(name.as_str());
                                proof {
                                    reveal_strlit("_");
                                    assert(hint@ =~= seq!['_'] + name@);
                                }
                                Some(Warning::UnusedVariable { location: *location, how_to_ignore: Some(hint) })
                            },
                            ValueConstructorVariant::LocalConstant { literal } => if private {
                                Some(Warning::UnusedLiteral { location: literal.location() })
                            } else {
                                None
                            },
                            ValueConstructorVariant::Record { name: record, module, location } => if private {
                                Some(
                                    Warning::UnusedConstructor {
                                        location: *location,
                                        imported: str_eq(module.as_str(), self.current_module.as_str()),
                                        name: record.clone(),
                                    },
                                )
                            } else {
                                None
                            },
                            ValueConstructorVariant::ModuleFn { name: function, module, location, implementations } => if private {
                                Some(Warning::UnusedPrivateFunction { location: *location, name: function.clone() })
                            } else if !str_eq(module.as_str(), self.current_module.as_str()) && implementations.gleam {
                                let at = match self.unqualified_imported_names.get(function.as_str()) {
                                    Some(l) => *l,
                                    None => *location,
                                };
                                Some(Warning::UnusedImportedValue { location: at, name: function.clone() })
                            } else {
                                None
                            },
                            ValueConstructorVariant::ModuleConstant { location, module } => if private {
                                Some(Warning::UnusedPrivateModuleConstant { location: *location, name: name.clone() })
                            } else if !str_eq(module.as_str(), self.current_module.as_str()) {
                                Some(Warning::UnusedImportedValue { location: *location, name: name.clone() })
                            } else {
                                None
                            },
                        };
                        proof {
                            assert(value_warning(cur, self.unqualified_imported_names@, self.value_usage_graph@[id]) == match found {
                                Some(w) => Some(w@),
                                None => None,
                            });
                        }
                        match found {
                            Some(w) => {
                                proof {
                                    lemma_views_push(before, w);
                                }
                                problems.warning(w);
                                assert(warning_views(problems.warnings@) =~= warning_views(w1) + value_warnings(
                                    cur,
                                    self.unqualified_imported_names@,
                                    self.value_usage_graph@,
                                    value_order@.subrange(0, i + 1),
                                ));
                            },
                            None => {},
                        }
                    }
                },
                None => {},
            }
            i = i + 1;
        }
        assert(value_order@.subrange(0, value_order@.len() as int) =~= value_order@);
        let ghost w2 = problems.warnings@;

        let mut locations: Vec<SrcSpan> = Vec::new();
        let n = self.unused_modules.len();
        let mut i: usize = 0;
        while i < n
            invariant
                n == self.unused_modules.pairs().len(),
                i <= n,
                problems.errors@ == old(problems).errors@,
                warning_views(problems.warnings@) == warning_views(w2) + module_warnings(
                    self.unused_modules.pairs().subrange(0, i as int),
                ),
                locations@ == self.unused_modules.pairs().subrange(0, i as int).map_values(
                    |e: (Seq<char>, SrcSpan)| e.1,
                ),
            decreases n - i,
        {
            let ghost before = problems.warnings@;
            let location = *self.unused_modules.value_at(i);
            let w = Warning::UnusedImportedModule { name: self.unused_modules.key_at(i).clone(), location };
            proof {
                lemma_views_push(before, w);
                let p = self.unused_modules.pairs();
                assert(p.subrange(0, i + 1) =~= p.subrange(0, i as int).push(p[i as int]));
                assert(module_warnings(p.subrange(0, i + 1)) =~= module_warnings(p.subrange(0, i as int)).push(w@));
            }
            problems.warning(w);
            locations.push(location);
            proof {
                let p = self.unused_modules.pairs();
                assert(locations@ =~= p.subrange(0, i + 1).map_values(|e: (Seq<char>, SrcSpan)| e.1));
            }
            i = i + 1;
        }
        let ghost w3 = problems.warnings@;
        let ghost l3 = locations@;
        assert(self.unused_modules.pairs().subrange(0, n as int) =~= self.unused_modules.pairs());

        let na = self.unused_module_aliases.len();
        let mut i: usize = 0;
        while i < na
            invariant
                na == self.unused_module_aliases.pairs().len(),
                i <= na,
                problems.errors@ == old(problems).errors@,
                warning_views(problems.warnings@) == warning_views(w3) + alias_warnings(
                    unused_aliases(self.unused_module_aliases.pairs().subrange(0, i as int), self.unused_modules@),
                ),
                locations@ == l3 + unused_aliases(
                    self.unused_module_aliases.pairs().subrange(0, i as int),
                    self.unused_modules@,
                ).map_values(|e: (Seq<char>, UnusedModuleAlias)| e.1.location),
            decreases na - i,
        {
            let ghost p = self.unused_module_aliases.pairs();
            let ghost before = problems.warnings@;
            let ghost q = unused_aliases(p.subrange(0, i as int), self.unused_modules@);
            proof {
                assert(p.subrange(0, i + 1).drop_last() =~= p.subrange(0, i as int));
            }
            let name = self.unused_module_aliases.key_at(i);
            if !self.unused_modules.contains_key(name.as_str()) {
                let info = self.unused_module_aliases.value_at(i);
                let w = Warning::UnusedImportedModuleAlias {
                    alias: name.clone(),
                    location: info.location,
                    module_name: info.module_name.clone(),
                };
                proof {
                    lemma_views_push(before, w);
                    assert(alias_warnings(q.push(p[i as int])) =~= alias_warnings(q).push(w@));
                }
                problems.warning(w);
                locations.push(info.location);
                proof {
                    assert(locations@ =~= l3 + q.push(p[i as int]).map_values(
                        |e: (Seq<char>, UnusedModuleAlias)| e.1.location,
                    ));
                }
            }
            i = i + 1;
        }
        assert(self.unused_module_aliases.pairs().subrange(0, na as int) =~= self.unused_module_aliases.pairs());
        locations
    }

    /// Warn of each definition and import that was never used: the types
    /// and then the values of the usage graphs, in the order in which the
    /// graphs hand them out, then each unused module, then each unused alias
    /// of a module that is used. Returns the locations of the unused
    /// imports.
    pub fn convert_unused_to_warnings(&mut self, problems: &mut Problems) -> (r: Vec<SrcSpan>)
        ensures
            *final(self) == *old(self),
            final(problems).errors@ == old(problems).errors@,
            exists|type_order: Seq<u64>, value_order: Seq<u64>|
                enumerates_ids(type_order, old(self).type_usage_graph@.dom()) && enumerates_ids(
                    value_order,
                    old(self).value_usage_graph@.dom(),
                ) && unused_reported(
                    *old(self),
                    old(problems).warnings@,
                    final(problems).warnings@,
                    type_order,
                    value_order,
                    r@,
                ),
    {
        let type_order = usage_order(&self.type_usage_graph);
        let value_order = usage_order(&self.value_usage_graph);
        let r = self.unused_to_warnings_in_order(problems, &type_order, &value_order);
        assert(enumerates_ids(type_order@, self.type_usage_graph@.dom()) && enumerates_ids(
            value_order@,
            self.value_usage_graph@.dom(),
        ) && unused_reported(*self, old(problems).warnings@, problems.warnings@, type_order@, value_order@, r@));
        r
    }
}

} // verus!
